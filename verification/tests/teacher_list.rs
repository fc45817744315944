use bulletou::teacher_path::{DataFormat, infer_data_format, teacher_list_parts};

#[test]
fn teacher_list_splits_and_trims() {
    assert_eq!(teacher_list_parts("a.hcpe, dir ,b.pack"), vec!["a.hcpe", "dir", "b.pack"]);
}

#[test]
fn teacher_list_drops_empty_pieces() {
    assert_eq!(teacher_list_parts(",, x.psv ,,"), vec!["x.psv"]);
    assert!(teacher_list_parts("").is_empty());
    assert!(teacher_list_parts(" , \t,").is_empty());
}

#[test]
fn teacher_list_keeps_inner_spaces() {
    assert_eq!(teacher_list_parts("  my data/a b.hcpe  "), vec!["my data/a b.hcpe"]);
}

#[test]
fn teacher_list_trims_unicode_whitespace() {
    assert_eq!(teacher_list_parts("\u{3000}棋譜.pack\u{00A0},\u{2003}x"), vec!["棋譜.pack", "x"]);
    assert_eq!(teacher_list_parts("\u{200B}y\u{200B}"), vec!["\u{200B}y\u{200B}"]);
}

#[test]
fn teacher_list_trims_as_std_trims() {
    for v in 0u32..0x3100 {
        if let Some(c) = char::from_u32(v).filter(|c| *c != ',') {
            let s = format!("{c}x{c}");
            let expected: Vec<String> = vec![s.trim().to_string()];
            assert_eq!(teacher_list_parts(&s), expected, "char U+{v:04X}");
        }
    }
}

#[test]
fn extension_of_bare_file_names() {
    assert_eq!(infer_data_format(&["a.b.hcpe", "c.HCPE"]), Ok(DataFormat::Hcpe));
    assert_eq!(infer_data_format(&["..hcpe3"]), Ok(DataFormat::Hcpe3));
    assert!(infer_data_format(&[".hcpe"]).is_err());
    assert!(infer_data_format(&["hcpe"]).is_err());
    assert!(infer_data_format(&["a.hcpe."]).is_err());
}

/// The extension rule the library states for paths without `\`, `:` or a
/// leading `//`: the last component split at `/`, empty and `.` components
/// left out, none for `..`, then what follows its last dot unless that dot
/// is its first character.
fn stated_extension(p: &str) -> Option<String> {
    let last = p.split('/').filter(|c| !c.is_empty() && *c != ".").last()?;
    if last == ".." {
        return None;
    }
    let dot = last.rfind('.')?;
    if dot == 0 {
        return None;
    }
    Some(last[dot + 1..].to_string())
}

#[test]
fn stated_extension_rule_matches_std_paths() {
    let parts = ["", ".", "..", "a", "a.b", ".a", "a.", "...", ".a.b", "x.hcpe", "d"];
    for x in parts {
        for y in parts {
            for sep in ["/", "//", "/./"] {
                for p in [format!("{x}{sep}{y}"), format!("{x}{sep}{y}/"), format!("/{x}{sep}{y}"), x.to_string()] {
                    if p.starts_with("//") {
                        continue;
                    }
                    let std_ext =
                        std::path::Path::new(&p).extension().and_then(|e| e.to_str()).map(|e| e.to_string());
                    assert_eq!(std_ext, stated_extension(&p), "path {p:?}");
                }
            }
        }
    }
}

#[test]
fn format_of_paths_with_directories() {
    assert_eq!(infer_data_format(&["dir/a.hcpe", "/tmp/x/b.HCPE"]), Ok(DataFormat::Hcpe));
    assert_eq!(infer_data_format(&["./games/c.pack/"]), Ok(DataFormat::Pack));
    assert!(infer_data_format(&["dir/.hcpe"]).is_err());
    assert!(infer_data_format(&["dir/a.hcpe/.."]).is_err());
}
