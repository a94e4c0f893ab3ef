use github_ranked::glyph_table::{emit, Extracted};

#[test]
fn tables_are_written_as_source() {
    let glyphs = vec![
        Extracted { advance: 260, path: String::new() },
        Extracted { advance: 268, path: "M1 2L3 4Z".to_string() },
    ];
    let mut out = String::new();
    emit("REGULAR", &glyphs, &mut out);
    assert_eq!(
        out,
        "/// regular glyphs, indexed by `ch as usize - FIRST as usize`.\n\
         pub static REGULAR: [Glyph; 2] = [\n    \
         Glyph { advance: 260, path: \"\" }, // ' '\n    \
         Glyph { advance: 268, path: \"M1 2L3 4Z\" }, // '!'\n\
         ];\n\n"
    );
}

#[test]
fn quotes_and_backslashes_are_escaped_in_comments() {
    let glyphs: Vec<Extracted> = (0..95).map(|i| Extracted { advance: i, path: String::new() }).collect();
    let mut out = String::new();
    emit("BOLD", &glyphs, &mut out);
    assert!(out.starts_with("/// bold glyphs"));
    assert!(out.contains("Glyph { advance: 7, path: \"\" }, // '\\''\n"));
    assert!(out.contains("Glyph { advance: 60, path: \"\" }, // '\\\\'\n"));
    assert!(out.contains("Glyph { advance: 94, path: \"\" }, // '~'\n"));
    assert!(out.contains("[Glyph; 95]"));
    assert!(out.ends_with("];\n\n"));
}
