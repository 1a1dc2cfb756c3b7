use artifact_inventory::{append_filename_with, update_shebang, Error};

#[test]
fn test_update_shebang_with_ruby_shebang() {
    let contents = "#!/path/to/ruby\nprint 'Hello, world!'\n";
    let updated_contents = update_shebang(contents.to_string());
    assert_eq!(
        updated_contents,
        Some("#!/usr/bin/env ruby\nprint 'Hello, world!'\n".to_string())
    );
}

#[test]
fn test_update_shebang_without_ruby_shebang() {
    let contents = "#!/path/to/python\nprint('Hello, world!')\n";
    let updated_contents = update_shebang(contents.to_string());
    assert_eq!(updated_contents, None);
}

#[test]
fn test_update_shebang_with_empty_contents() {
    let contents = "";
    let updated_contents = update_shebang(contents.to_string());
    assert_eq!(updated_contents, None);
}

#[test]
fn test_update_shebang_single_line() {
    let contents = "#!/usr/local/ruby";
    let updated_contents = update_shebang(contents.to_string());
    assert_eq!(updated_contents, Some("#!/usr/bin/env ruby".to_string()));
}

#[test]
fn test_update_shebang_keeps_carriage_return() {
    let contents = "#!/path/to/ruby\r\nputs 1\r\n";
    let updated_contents = update_shebang(contents.to_string());
    assert_eq!(
        updated_contents,
        Some("#!/usr/bin/env ruby\r\nputs 1\r\n".to_string())
    );
}

#[test]
fn test_append_filename_with_inserts_marker() {
    let out = append_filename_with("/tmp/file.txt", "-lol", ".txt").unwrap();
    assert_eq!("/tmp/file-lol.txt".to_string(), out);
}

#[test]
fn test_append_filename_with_wrong_suffix() {
    let err = append_filename_with("/tmp/file.txt", "-lol", ".md").unwrap_err();
    assert!(matches!(err, Error::Other(_)));
}

#[test]
fn test_append_filename_with_no_file_name() {
    let err = append_filename_with("/tmp/", "-lol", ".txt").unwrap_err();
    assert!(matches!(err, Error::Other(_)));
}

#[test]
fn test_append_filename_with_repeated_suffix() {
    let out = append_filename_with("/tmp/a.txt.txt", "-x", ".txt").unwrap();
    assert_eq!("/tmp/a-x.txt".to_string(), out);
}
