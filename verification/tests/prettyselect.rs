use llamadb::prettyselect::{pretty_select, string_width};

fn strings(values: &[&str]) -> Vec<String> {
    values.iter().map(|v| v.to_string()).collect()
}

#[test]
fn test_string_width() {
    assert_eq!(string_width(""), 0);
    assert_eq!(string_width("abc"), 3);
    assert_eq!(string_width("ab\ncdef\ng"), 4);
    assert_eq!(string_width("gr\u{fc}n"), 4);
    assert_eq!(string_width("abc\n"), 3);
}

#[test]
fn test_pretty_select() {
    let names = strings(&["a", "name"]);
    let rows = vec![strings(&["1", "x"]), strings(&["22", "longer"])];
    let (text, count) = pretty_select(&names, &rows, 32);
    assert_eq!(count, 2);
    assert_eq!(
        text,
        "---------------\n\
         | a  | name   |\n\
         ---------------\n\
         | 1  | x      |\n\
         | 22 | longer |\n\
         ---------------\n\
         \n"
    );
}

#[test]
fn test_pretty_select_pages() {
    let names = strings(&["n"]);
    let rows = vec![strings(&["1"]), strings(&["222"]), strings(&["3"])];
    let (text, count) = pretty_select(&names, &rows, 2);
    assert_eq!(count, 3);
    // each page is as wide as its own rows need it
    assert_eq!(
        text,
        "-------\n\
         | n   |\n\
         -------\n\
         | 1   |\n\
         | 222 |\n\
         -------\n\
         \n\
         -----\n\
         | n |\n\
         -----\n\
         | 3 |\n\
         -----\n\
         \n"
    );
}

#[test]
fn test_pretty_select_no_rows() {
    let names = strings(&["a", "bc"]);
    let (text, count) = pretty_select(&names, &Vec::new(), 32);
    assert_eq!(count, 0);
    assert_eq!(
        text,
        "----------\n\
         | a | bc |\n\
         ----------\n\
         \n"
    );
    let rows = vec![strings(&["1", "2"])];
    let (text, count) = pretty_select(&names, &rows, 0);
    assert_eq!(count, 0);
    assert_eq!(
        text,
        "----------\n\
         | a | bc |\n\
         ----------\n\
         \n"
    );
}
