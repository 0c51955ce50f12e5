//! Fixed-width and variable-width integer encodings used by the page layer
//! and by the order-preserving row keys.

use vstd::prelude::*;

verus! {

/// 256 to the power `n`.
pub open spec fn pow256(n: nat) -> nat
    decreases n,
{
    if n == 0 {
        1
    } else {
        256 * pow256((n - 1) as nat)
    }
}

/// The number that `bytes` spell with the least significant byte first.
pub open spec fn le_value(bytes: Seq<u8>) -> nat
    decreases bytes.len(),
{
    if bytes.len() == 0 {
        0
    } else {
        bytes[0] as nat + 256 * le_value(bytes.drop_first())
    }
}

/// The number that `bytes` spell with the most significant byte first.
pub open spec fn be_value(bytes: Seq<u8>) -> nat
    decreases bytes.len(),
{
    if bytes.len() == 0 {
        0
    } else {
        256 * be_value(bytes.drop_last()) + bytes.last() as nat
    }
}

/// The `n` low bytes of `value`, least significant first.
pub open spec fn le_bytes(value: nat, n: nat) -> Seq<u8>
    decreases n,
{
    if n == 0 {
        Seq::empty()
    } else {
        seq![(value % 256) as u8] + le_bytes(value / 256, (n - 1) as nat)
    }
}

/// The `n` low bytes of `value`, most significant first.
pub open spec fn be_bytes(value: nat, n: nat) -> Seq<u8>
    decreases n,
{
    if n == 0 {
        Seq::empty()
    } else {
        be_bytes(value / 256, (n - 1) as nat).push((value % 256) as u8)
    }
}

/// The powers of 256 up to the eighth.
pub proof fn lemma_pow256_values()
    ensures
        pow256(0) == 1,
        pow256(1) == 0x100,
        pow256(2) == 0x1_0000,
        pow256(3) == 0x100_0000,
        pow256(4) == 0x1_0000_0000,
        pow256(5) == 0x100_0000_0000,
        pow256(6) == 0x1_0000_0000_0000,
        pow256(7) == 0x100_0000_0000_0000,
        pow256(8) == 0x1_0000_0000_0000_0000,
{
    reveal_with_fuel(pow256, 10);
}

/// The powers of 256 grow, and none is zero.
pub proof fn lemma_pow256_monotonic(a: nat, b: nat)
    requires
        a <= b,
    ensures
        pow256(a) <= pow256(b),
        pow256(a) >= 1,
    decreases b,
{
    if a < b {
        lemma_pow256_monotonic(a, (b - 1) as nat);
    } else if a > 0 {
        lemma_pow256_monotonic((a - 1) as nat, (a - 1) as nat);
    }
}

/// A little-endian number of `n` bytes is below `256^n`.
pub proof fn lemma_le_value_bound(bytes: Seq<u8>)
    ensures
        le_value(bytes) < pow256(bytes.len()),
    decreases bytes.len(),
{
    if bytes.len() > 0 {
        lemma_le_value_bound(bytes.drop_first());
    }
}

/// A big-endian number of `n` bytes is below `256^n`.
pub proof fn lemma_be_value_bound(bytes: Seq<u8>)
    ensures
        be_value(bytes) < pow256(bytes.len()),
    decreases bytes.len(),
{
    if bytes.len() > 0 {
        lemma_be_value_bound(bytes.drop_last());
    }
}

/// A number written in `n` bytes has `n` bytes.
pub proof fn lemma_le_bytes_len(value: nat, n: nat)
    ensures
        le_bytes(value, n).len() == n,
    decreases n,
{
    if n > 0 {
        lemma_le_bytes_len(value / 256, (n - 1) as nat);
    }
}

/// A number written in `n` bytes has `n` bytes.
pub proof fn lemma_be_bytes_len(value: nat, n: nat)
    ensures
        be_bytes(value, n).len() == n,
    decreases n,
{
    if n > 0 {
        lemma_be_bytes_len(value / 256, (n - 1) as nat);
    }
}

/// Reading back the little-endian bytes of a number gives the number
/// reduced to the width that was written.
pub proof fn lemma_le_roundtrip(value: nat, n: nat)
    ensures
        le_value(le_bytes(value, n)) == value % pow256(n),
    decreases n,
{
    if n > 0 {
        let rest = le_bytes(value / 256, (n - 1) as nat);
        let all = le_bytes(value, n);
        lemma_le_roundtrip(value / 256, (n - 1) as nat);
        assert(all.drop_first() =~= rest);
        assert(all[0] == (value % 256) as u8);
        lemma_pow256_monotonic(0, (n - 1) as nat);
        lemma_mod_split(value, pow256((n - 1) as nat));
    }
}

/// Reading back the big-endian bytes of a number gives the number reduced
/// to the width that was written.
pub proof fn lemma_be_roundtrip(value: nat, n: nat)
    ensures
        be_value(be_bytes(value, n)) == value % pow256(n),
    decreases n,
{
    if n > 0 {
        let rest = be_bytes(value / 256, (n - 1) as nat);
        let all = be_bytes(value, n);
        lemma_be_roundtrip(value / 256, (n - 1) as nat);
        assert(all.drop_last() =~= rest);
        assert(all.last() == (value % 256) as u8);
        lemma_pow256_monotonic(0, (n - 1) as nat);
        lemma_mod_split(value, pow256((n - 1) as nat));
    }
}

/// `v mod 256p` splits into the low byte and the rest reduced by `p`.
proof fn lemma_mod_split(v: nat, p: nat)
    requires
        p > 0,
    ensures
        v % (256 * p) == (v % 256) + 256 * ((v / 256) % p),
{
    let q = v / 256;
    let r = v % 256;
    assert(v == 256 * q + r) by (nonlinear_arith)
        requires
            q == v / 256,
            r == v % 256,
    ;
    let q2 = q / p;
    let r2 = q % p;
    assert(q == p * q2 + r2 && r2 < p) by (nonlinear_arith)
        requires
            q2 == q / p,
            r2 == q % p,
            p > 0,
    ;
    assert(v == (256 * p) * q2 + (256 * r2 + r)) by (nonlinear_arith)
        requires
            v == 256 * q + r,
            q == p * q2 + r2,
    ;
    assert(256 * r2 + r < 256 * p) by (nonlinear_arith)
        requires
            r2 < p,
            r < 256,
    ;
    vstd::arithmetic::div_mod::lemma_fundamental_div_mod_converse(
        v as int,
        (256 * p) as int,
        q2 as int,
        (256 * r2 + r) as int,
    );
}

fn read_le(buf: &[u8]) -> (r: u64)
    requires
        buf@.len() <= 8,
    ensures
        r as nat == le_value(buf@),
{
    let n: usize = buf.len();
    let mut acc: u64 = 0;
    let mut i: usize = n;
    proof {
        assert(buf@.subrange(n as int, n as int) =~= Seq::<u8>::empty());
        lemma_pow256_values();
    }
    while i > 0
        invariant
            n == buf@.len(),
            n <= 8,
            i <= n,
            acc as nat == le_value(buf@.subrange(i as int, n as int)),
        decreases i,
    {
        i = i - 1;
        proof {
            let tail = buf@.subrange(i as int, n as int);
            assert(tail.drop_first() =~= buf@.subrange(i as int + 1, n as int));
            lemma_le_value_bound(tail.drop_first());
            lemma_le_value_bound(tail);
            lemma_pow256_monotonic(tail.len(), 8);
            lemma_pow256_values();
        }
        acc = acc * 256 + buf[i] as u64;
    }
    proof {
        assert(buf@.subrange(0, n as int) =~= buf@);
    }
    acc
}

/// Reads a 16-bit number stored least significant byte first.
pub fn read_u16_le(buf: &[u8]) -> (r: u16)
    requires
        buf@.len() == 2,
    ensures
        r as nat == le_value(buf@),
{
    proof {
        lemma_le_value_bound(buf@);
        lemma_pow256_values();
    }
    read_le(buf) as u16
}

/// Reads a 32-bit number stored least significant byte first.
pub fn read_u32_le(buf: &[u8]) -> (r: u32)
    requires
        buf@.len() == 4,
    ensures
        r as nat == le_value(buf@),
{
    proof {
        lemma_le_value_bound(buf@);
        lemma_pow256_values();
    }
    read_le(buf) as u32
}

/// Reads a 64-bit number stored least significant byte first.
pub fn read_u64_le(buf: &[u8]) -> (r: u64)
    requires
        buf@.len() == 8,
    ensures
        r as nat == le_value(buf@),
{
    read_le(buf)
}

fn write_le(value: u64, buf: &mut [u8])
    requires
        old(buf)@.len() <= 8,
    ensures
        final(buf)@ == le_bytes(value as nat, old(buf)@.len()),
{
    let n: usize = buf.len();
    let mut rest: u64 = value;
    let mut i: usize = 0;
    let ghost mut done: Seq<u8> = Seq::empty();
    while i < n
        invariant
            n == buf@.len(),
            i <= n,
            done =~= buf@.subrange(0, i as int),
            le_bytes(value as nat, n as nat) =~= done + le_bytes(rest as nat, (n - i) as nat),
        decreases n - i,
    {
        buf[i] = (rest % 256) as u8;
        proof {
            done = done.push((rest % 256) as u8);
        }
        rest = rest / 256;
        i = i + 1;
    }
    proof {
        assert(buf@.subrange(0, n as int) =~= buf@);
    }
}

/// Stores a 16-bit number least significant byte first.
pub fn write_u16_le(value: u16, buf: &mut [u8])
    requires
        old(buf)@.len() == 2,
    ensures
        final(buf)@ == le_bytes(value as nat, 2),
{
    write_le(value as u64, buf)
}

/// Stores a 32-bit number least significant byte first.
pub fn write_u32_le(value: u32, buf: &mut [u8])
    requires
        old(buf)@.len() == 4,
    ensures
        final(buf)@ == le_bytes(value as nat, 4),
{
    write_le(value as u64, buf)
}

/// Stores a 64-bit number least significant byte first.
pub fn write_u64_le(value: u64, buf: &mut [u8])
    requires
        old(buf)@.len() == 8,
    ensures
        final(buf)@ == le_bytes(value as nat, 8),
{
    write_le(value, buf)
}

/// Lexicographic order on byte strings: `a` comes strictly before `b`.
pub open spec fn lex_less(a: Seq<u8>, b: Seq<u8>) -> bool
    decreases a.len(),
{
    if b.len() == 0 {
        false
    } else if a.len() == 0 {
        true
    } else if a[0] != b[0] {
        a[0] < b[0]
    } else {
        lex_less(a.drop_first(), b.drop_first())
    }
}

/// The first byte of a big-endian encoding is the most significant digit.
proof fn lemma_be_bytes_first(value: nat, n: nat)
    requires
        n > 0,
        value < pow256(n),
    ensures
        be_bytes(value, n).len() == n,
        be_bytes(value, n)[0] as nat == value / pow256((n - 1) as nat),
        be_bytes(value, n).drop_first() == be_bytes(value % pow256((n - 1) as nat), (n - 1) as nat),
    decreases n,
{
    lemma_be_bytes_len(value, n);
    lemma_be_bytes_len(value / 256, (n - 1) as nat);
    let all = be_bytes(value, n);
    if n == 1 {
        reveal_with_fuel(pow256, 2);
        reveal_with_fuel(be_bytes, 2);
        assert(all =~= seq![(value % 256) as u8]);
        assert(all.drop_first() =~= Seq::<u8>::empty());
    } else {
        let p = pow256((n - 2) as nat);
        lemma_pow256_monotonic(0, (n - 2) as nat);
        assert(pow256((n - 1) as nat) == 256 * p);
        assert(pow256(n) == 256 * (256 * p));
        let q = value / 256;
        assert(q < 256 * p) by (nonlinear_arith)
            requires
                value < 256 * (256 * p),
                q == value / 256,
        ;
        lemma_be_bytes_first(q, (n - 1) as nat);
        let inner = be_bytes(q, (n - 1) as nat);
        assert(all =~= inner.push((value % 256) as u8));
        assert(all[0] == inner[0]);
        assert(q / p == value / (256 * p)) by (nonlinear_arith)
            requires
                q == value / 256,
                p > 0,
        ;
        lemma_mod_split(value, p);
        assert(all.drop_first() =~= inner.drop_first().push((value % 256) as u8));
        let low = value % (256 * p);
        vstd::arithmetic::div_mod::lemma_fundamental_div_mod_converse(
            low as int,
            256,
            (q % p) as int,
            (value % 256) as int,
        );
        lemma_be_bytes_len(low / 256, (n - 2) as nat);
        assert(be_bytes(low, (n - 1) as nat) =~= be_bytes(low / 256, (n - 2) as nat).push(
            (low % 256) as u8,
        ));
    }
}

/// Big-endian encodings of one width sort as the numbers they spell.
pub proof fn lemma_be_bytes_order(a: nat, b: nat, n: nat)
    requires
        a < b,
        b < pow256(n),
    ensures
        lex_less(be_bytes(a, n), be_bytes(b, n)),
    decreases n,
{
    if n == 0 {
        assert(false);
    } else {
        let p = pow256((n - 1) as nat);
        lemma_pow256_monotonic(0, (n - 1) as nat);
        lemma_be_bytes_first(a, n);
        lemma_be_bytes_first(b, n);
        let ea = be_bytes(a, n);
        let eb = be_bytes(b, n);
        assert(a / p <= b / p) by (nonlinear_arith)
            requires
                a < b,
                p > 0,
        ;
        assert(a / p < 256 && b / p < 256) by (nonlinear_arith)
            requires
                a < b,
                b < 256 * p,
                p > 0,
        ;
        if a / p == b / p {
            assert(a % p < b % p) by (nonlinear_arith)
                requires
                    a < b,
                    a / p == b / p,
                    p > 0,
            ;
            assert(b % p < p) by (nonlinear_arith)
                requires
                    p > 0,
            ;
            lemma_be_bytes_order(a % p, b % p, (n - 1) as nat);
        }
    }
}

/// Writing the number that big-endian bytes spell gives the bytes again.
pub proof fn lemma_be_bytes_of_value(bytes: Seq<u8>)
    ensures
        be_bytes(be_value(bytes), bytes.len()) == bytes,
    decreases bytes.len(),
{
    if bytes.len() > 0 {
        let head = bytes.drop_last();
        lemma_be_bytes_of_value(head);
        let v = be_value(bytes);
        assert(v == 256 * be_value(head) + bytes.last() as nat);
        vstd::arithmetic::div_mod::lemma_fundamental_div_mod_converse(
            v as int,
            256,
            be_value(head) as int,
            bytes.last() as int,
        );
        assert(be_bytes(v, bytes.len()) =~= head.push(bytes.last()));
        assert(head.push(bytes.last()) =~= bytes);
    } else {
        assert(be_bytes(be_value(bytes), 0) =~= bytes);
    }
}

/// Byte strings whose first `k` bytes differ in order are in that order
/// themselves.
pub proof fn lemma_lex_less_by_prefix(a: Seq<u8>, b: Seq<u8>, k: int)
    requires
        0 <= k <= a.len(),
        k <= b.len(),
        lex_less(a.take(k), b.take(k)),
    ensures
        lex_less(a, b),
    decreases k,
{
    if k > 0 {
        assert(a.take(k)[0] == a[0]);
        assert(b.take(k)[0] == b[0]);
        if a[0] == b[0] {
            assert(a.take(k).drop_first() =~= a.drop_first().take(k - 1));
            assert(b.take(k).drop_first() =~= b.drop_first().take(k - 1));
            lemma_lex_less_by_prefix(a.drop_first(), b.drop_first(), k - 1);
        }
    }
}

/// Reads an unsigned number stored most significant byte first.
pub fn read_udbinteger(bytes: &[u8]) -> (r: u64)
    requires
        1 <= bytes@.len() <= 8,
    ensures
        r as nat == be_value(bytes@),
{
    let n: usize = bytes.len();
    let mut acc: u64 = 0;
    let mut i: usize = 0;
    proof {
        assert(bytes@.subrange(0, 0) =~= Seq::<u8>::empty());
    }
    while i < n
        invariant
            n == bytes@.len(),
            n <= 8,
            i <= n,
            acc as nat == be_value(bytes@.subrange(0, i as int)),
        decreases n - i,
    {
        proof {
            let head = bytes@.subrange(0, i as int + 1);
            assert(head.drop_last() =~= bytes@.subrange(0, i as int));
            lemma_be_value_bound(head.drop_last());
            lemma_be_value_bound(head);
            lemma_pow256_monotonic(head.len(), 8);
            lemma_pow256_values();
        }
        acc = acc * 256 + bytes[i] as u64;
        i = i + 1;
    }
    proof {
        assert(bytes@.subrange(0, n as int) =~= bytes@);
    }
    acc
}

/// Stores the low bytes of an unsigned number most significant byte first,
/// filling the buffer.
pub fn write_udbinteger(value: u64, buf: &mut [u8])
    requires
        1 <= old(buf)@.len() <= 8,
    ensures
        final(buf)@ == be_bytes(value as nat, old(buf)@.len()),
{
    let n: usize = buf.len();
    let mut rest: u64 = value;
    let mut i: usize = n;
    let ghost mut done: Seq<u8> = Seq::empty();
    while i > 0
        invariant
            n == buf@.len(),
            i <= n,
            done =~= buf@.subrange(i as int, n as int),
            be_bytes(value as nat, n as nat) =~= be_bytes(rest as nat, i as nat) + done,
        decreases i,
    {
        i = i - 1;
        buf[i] = (rest % 256) as u8;
        proof {
            done = seq![(rest % 256) as u8] + done;
        }
        rest = rest / 256;
    }
    proof {
        assert(buf@.subrange(0, n as int) =~= buf@);
    }
}

/// Half of the range of an `n`-byte number: the bias of the signed encoding.
pub open spec fn half_range(n: nat) -> nat {
    pow256(n) / 2
}

/// What the biased encoding stores for `value`: the value moved up by half
/// of the `n`-byte range, reduced to 64 bits.
pub open spec fn sdb_biased(value: int, n: nat) -> nat {
    ((value + half_range(n)) % 0x1_0000_0000_0000_0000) as nat
}

fn half_range_of(n: usize) -> (r: u64)
    requires
        1 <= n <= 8,
    ensures
        r as nat == half_range(n as nat),
{
    proof {
        lemma_pow256_values();
    }
    if n == 1 {
        0x80
    } else if n == 2 {
        0x8000
    } else if n == 3 {
        0x80_0000
    } else if n == 4 {
        0x8000_0000
    } else if n == 5 {
        0x80_0000_0000
    } else if n == 6 {
        0x8000_0000_0000
    } else if n == 7 {
        0x80_0000_0000_0000
    } else {
        0x8000_0000_0000_0000
    }
}

/// Reads a signed number stored biased by half of its range, most
/// significant byte first.
pub fn read_sdbinteger(bytes: &[u8]) -> (r: i64)
    requires
        1 <= bytes@.len() <= 8,
    ensures
        r as int == be_value(bytes@) - half_range(bytes@.len()),
{
    let raw: u64 = read_udbinteger(bytes);
    let half: u64 = half_range_of(bytes.len());
    proof {
        lemma_be_value_bound(bytes@);
        lemma_pow256_values();
    }
    if raw >= half {
        (raw - half) as i64
    } else {
        let below: u64 = half - raw;
        if below == 0x8000_0000_0000_0000 {
            i64::MIN
        } else {
            -(below as i64)
        }
    }
}

/// Stores a signed number biased by half of the buffer's range, most
/// significant byte first; a value outside that range keeps its low bytes.
pub fn write_sdbinteger(value: i64, buf: &mut [u8])
    requires
        1 <= old(buf)@.len() <= 8,
    ensures
        final(buf)@ == be_bytes(sdb_biased(value as int, old(buf)@.len()), old(buf)@.len()),
{
    let half: u64 = half_range_of(buf.len());
    proof {
        lemma_pow256_values();
    }
    let biased: u64 = if value >= 0 {
        value as u64 + half
    } else {
        let m: u64 = (-(value + 1)) as u64;
        if half > m {
            half - m - 1
        } else {
            (u64::MAX - m) + half
        }
    };
    write_udbinteger(biased, buf)
}

/// The sort key of a double given by its bit pattern: the sign bit is
/// flipped where it is clear, and every bit is flipped where it is set.
pub open spec fn dbfloat_key(bits: u64) -> u64 {
    if bits >= 0x8000_0000_0000_0000 {
        (0xFFFF_FFFF_FFFF_FFFF - bits) as u64
    } else {
        (bits + 0x8000_0000_0000_0000) as u64
    }
}

/// The bit pattern whose sort key is `key`.
pub open spec fn dbfloat_unkey(key: u64) -> u64 {
    if key < 0x8000_0000_0000_0000 {
        (0xFFFF_FFFF_FFFF_FFFF - key) as u64
    } else {
        (key - 0x8000_0000_0000_0000) as u64
    }
}

/// Reads the bit pattern of a double from its eight sortable bytes.
pub fn read_dbfloat(bytes: &[u8]) -> (bits: u64)
    requires
        bytes@.len() == 8,
    ensures
        be_value(bytes@) < 0x1_0000_0000_0000_0000,
        bits == dbfloat_unkey(be_value(bytes@) as u64),
{
    let raw: u64 = read_udbinteger(bytes);
    if raw < 0x8000_0000_0000_0000 {
        u64::MAX - raw
    } else {
        raw - 0x8000_0000_0000_0000
    }
}

/// Stores the bit pattern of a double as eight sortable bytes.
pub fn write_dbfloat(bits: u64, buf: &mut [u8])
    requires
        old(buf)@.len() == 8,
    ensures
        final(buf)@ == be_bytes(dbfloat_key(bits) as nat, 8),
{
    let key: u64 = if bits >= 0x8000_0000_0000_0000 {
        u64::MAX - bits
    } else {
        bits + 0x8000_0000_0000_0000
    };
    write_udbinteger(key, buf)
}

/// The continuation bytes that precede the last byte of a variable-length
/// number whose upper part is `upper`: seven bits each, flagged, most
/// significant first.
pub open spec fn uvar_prefix(upper: nat) -> Seq<u8>
    decreases upper,
{
    if upper == 0 {
        Seq::empty()
    } else {
        uvar_prefix(upper / 128).push((128 + upper % 128) as u8)
    }
}

/// The variable-length encoding of `value`: seven bits per byte, most
/// significant group first, every byte but the last flagged with `0x80`.
pub open spec fn uvar_bytes(value: nat) -> Seq<u8> {
    uvar_prefix(value / 128).push((value % 128) as u8)
}

/// Where a variable-length number that starts at `from` ends, and what it
/// spells once `accum` has been read; `None` if the bytes run out first.
/// Bits shifted out of 64 are lost.
pub open spec fn uvar_scan(buf: Seq<u8>, from: int, accum: u64) -> Option<(int, u64)>
    decreases buf.len() - from,
{
    if from < 0 || from >= buf.len() {
        None
    } else {
        let next = ((accum as nat * 128 + (buf[from] % 128) as nat) % 0x1_0000_0000_0000_0000) as u64;
        if buf[from] < 128 {
            Some((from + 1, next))
        } else {
            uvar_scan(buf, from + 1, next)
        }
    }
}

/// Reads a variable-length number from the start of `buf`. Returns the
/// number of bytes it took and the number, or `None` if every byte of
/// `buf` is flagged as continued.
pub fn read_uvar(buf: &[u8]) -> (r: Option<(usize, u64)>)
    ensures
        match r {
            Some((len, value)) => uvar_scan(buf@, 0, 0) == Some((len as int, value)),
            None => uvar_scan(buf@, 0, 0).is_none(),
        },
{
    let n: usize = buf.len();
    let mut accum: u64 = 0;
    let mut i: usize = 0;
    while i < n
        invariant
            n == buf@.len(),
            i <= n,
            uvar_scan(buf@, 0, 0) == uvar_scan(buf@, i as int, accum),
        decreases n - i,
    {
        let v: u8 = buf[i];
        let low: u64 = (v % 128) as u64;
        let shifted: u64 = (accum % 0x200_0000_0000_0000) * 128;
        proof {
            assert((accum as nat * 128 + low as nat) % 0x1_0000_0000_0000_0000 == (accum
                % 0x200_0000_0000_0000) * 128 + low) by (nonlinear_arith)
                requires
                    low < 128,
            ;
        }
        accum = shifted + low;
        if v < 128 {
            return Some((i + 1, accum));
        }
        i = i + 1;
    }
    None
}

/// The number of bytes of the variable-length encoding of `value`.
pub open spec fn uvar_len(value: nat) -> nat {
    uvar_bytes(value).len()
}

proof fn lemma_uvar_prefix_len(upper: nat)
    ensures
        upper == 0 ==> uvar_prefix(upper).len() == 0,
        upper > 0 ==> uvar_prefix(upper).len() == 1 + uvar_prefix(upper / 128).len(),
        upper < 0x200_0000_0000_0000 ==> uvar_prefix(upper).len() <= 9,
{
    reveal_with_fuel(uvar_prefix, 11);
}

/// Writes the variable-length encoding of `value` at the start of `buf` and
/// returns its length. A buffer that is too short is left as it was, and
/// `None` is returned.
pub fn write_uvar(value: u64, buf: &mut [u8]) -> (r: Option<usize>)
    ensures
        final(buf)@.len() == old(buf)@.len(),
        match r {
            Some(len) => {
                &&& len as nat == uvar_len(value as nat)
                &&& len <= old(buf)@.len()
                &&& final(buf)@.subrange(0, len as int) == uvar_bytes(value as nat)
                &&& final(buf)@.subrange(len as int, old(buf)@.len() as int) == old(buf)@.subrange(
                    len as int,
                    old(buf)@.len() as int,
                )
            },
            None => old(buf)@.len() < uvar_len(value as nat) && final(buf)@ == old(buf)@,
        },
{
    let mut len: usize = 1;
    let mut upper: u64 = value / 128;
    proof {
        lemma_uvar_prefix_len(upper as nat);
    }
    while upper != 0
        invariant
            upper <= value / 128,
            1 <= len,
            len as nat + uvar_prefix(upper as nat).len() == uvar_len(value as nat),
            uvar_len(value as nat) <= 10,
        decreases upper,
    {
        proof {
            lemma_uvar_prefix_len(upper as nat);
        }
        upper = upper / 128;
        len = len + 1;
    }
    proof {
        lemma_uvar_prefix_len(0);
    }
    if len > buf.len() {
        return None;
    }
    let mut j: usize = len - 1;
    buf[j] = (value % 128) as u8;
    let mut rest: u64 = value / 128;
    let ghost total = buf@.len();
    let ghost mut tail: Seq<u8> = seq![(value % 128) as u8];
    while rest != 0
        invariant
            len <= total,
            total == buf@.len(),
            total == old(buf)@.len(),
            j < len,
            j as nat == uvar_prefix(rest as nat).len(),
            tail =~= buf@.subrange(j as int, len as int),
            uvar_bytes(value as nat) =~= uvar_prefix(rest as nat) + tail,
            buf@.subrange(len as int, total as int)
                =~= old(buf)@.subrange(len as int, total as int),
        decreases rest,
    {
        proof {
            lemma_uvar_prefix_len(rest as nat);
        }
        j = j - 1;
        buf[j] = 128 + (rest % 128) as u8;
        proof {
            tail = seq![(128 + rest % 128) as u8] + tail;
        }
        rest = rest / 128;
    }
    proof {
        lemma_uvar_prefix_len(0);
        assert(uvar_prefix(0) =~= Seq::<u8>::empty());
    }
    Some(len)
}

} // verus!
