use todo_tracker::records::{append_line, read_all, remove_line, TodoError};

fn file_of(lines: &[&str]) -> String {
    let mut file = String::new();
    for line in lines {
        append_line(&mut file, line.to_string());
    }
    file
}

#[test]
fn append_writes_the_line_and_a_line_feed() {
    let mut file = String::new();
    append_line(&mut file, "first".to_string());
    assert_eq!(file, "first\n");
    append_line(&mut file, "".to_string());
    assert_eq!(file, "first\n\n");
    append_line(&mut file, "a\tb".to_string());
    assert_eq!(file, "first\n\na\tb\n");
    let mut open_ended = "no line feed yet".to_string();
    append_line(&mut open_ended, "next".to_string());
    assert_eq!(open_ended, "no line feed yetnext\n");
}

#[test]
fn read_all_splits_at_line_feeds() {
    assert_eq!(read_all(""), Vec::<String>::new());
    assert_eq!(read_all("a"), vec!["a"]);
    assert_eq!(read_all("a\n"), vec!["a"]);
    assert_eq!(read_all("a\nb"), vec!["a", "b"]);
    assert_eq!(read_all("a\n\nb\n"), vec!["a", "", "b"]);
    assert_eq!(read_all("\n"), vec![""]);
    assert_eq!(read_all("\n\n"), vec!["", ""]);
    assert_eq!(read_all("a\r\nb\r\n"), vec!["a", "b"]);
    assert_eq!(read_all("a\rb\n"), vec!["a\rb"]);
    assert_eq!(read_all("a\r"), vec!["a\r"]);
    assert_eq!(read_all("a\r\r\n"), vec!["a\r"]);
    assert_eq!(read_all("\r\n"), vec![""]);
}

#[test]
fn read_all_agrees_with_the_lines_of_std() {
    for text in [
        "", "a", "a\n", "a\nb", "\n", "\n\n", "a\r\n", "a\r", "\r", "\r\n\r\n", "a\n\r",
        "x\ty\r\r\nz", "\n\r\n\r", "last\n\n\n",
    ] {
        let expected: Vec<String> = text.lines().map(|l| l.to_string()).collect();
        assert_eq!(read_all(text), expected);
    }
}

#[test]
fn remove_leaves_the_other_lines_in_order() {
    let lines = ["zero", "one", "two", "three", "four"];
    for k in 0..lines.len() {
        let mut file = file_of(&lines);
        assert_eq!(read_all(&file).len(), 5);
        let removed = read_all(&file)[k].clone();
        assert_eq!(remove_line(&mut file, k), Ok(()));
        let mut expected: Vec<String> = lines.iter().map(|l| l.to_string()).collect();
        assert_eq!(expected.remove(k), removed);
        assert_eq!(read_all(&file), expected);
        assert_eq!(read_all(&file).len(), 4);
    }
}

#[test]
fn remove_rewrites_the_whole_file() {
    let mut file = "a\r\nb\nc".to_string();
    assert_eq!(remove_line(&mut file, 1), Ok(()));
    assert_eq!(file, "a\nc\n");
    let mut single = "only".to_string();
    assert_eq!(remove_line(&mut single, 0), Ok(()));
    assert_eq!(single, "");
}

#[test]
fn remove_beyond_the_end_changes_nothing() {
    let untouched = "a\r\nb\nc";
    for index in [3usize, 4, 100, usize::MAX] {
        let mut file = untouched.to_string();
        assert_eq!(remove_line(&mut file, index), Err(TodoError::IndexOutOfBounds));
        assert_eq!(file, untouched);
    }
    let mut empty = String::new();
    assert_eq!(remove_line(&mut empty, 0), Err(TodoError::IndexOutOfBounds));
    assert_eq!(empty, "");
}

#[test]
fn errors_have_messages() {
    assert_eq!(TodoError::IndexOutOfBounds.message(), "Index out of bounds");
    assert_eq!(TodoError::ConfigCorrupt.message(), "config file is broken!");
}
