use namid::wizard::RulesField;

/// Regression: multi-byte UTF-8 must not panic field cursor.
#[test]
fn field_cursor_survives_multibyte_utf8() {
    let mut f = RulesField {
        label: "Series Title *",
        value: String::new(),
        placeholder: "",
        cursor: 0,
    };

    // Type "é" then "x" (mirrors the Char(c) arm in handle_rules).
    for c in ['é', 'x', '—', 'y'] {
        let byte_idx = f.cursor_byte();
        f.value.insert(byte_idx, c);
        f.cursor += 1;
    }
    assert_eq!(f.value, "éx—y");
    assert_eq!(f.cursor, 4); // 4 characters, not byte length

    // Backspace all the way (mirrors the Backspace arm) — must not panic.
    while f.cursor > 0 {
        let byte_idx = f
            .value
            .char_indices()
            .nth(f.cursor - 1)
            .map(|(b, _)| b)
            .unwrap_or(0);
        f.value.remove(byte_idx);
        f.cursor -= 1;
    }
    assert_eq!(f.value, "");
    assert_eq!(f.cursor, 0);
}

#[test]
fn field_char_len_counts_characters_not_bytes() {
    let f = RulesField {
        label: "x",
        value: "呪術廻戦".to_string(),
        placeholder: "",
        cursor: 0,
    };
    assert_eq!(f.char_len(), 4); // 4 characters
    assert_eq!(f.value.len(), 12); // 12 bytes (3 bytes/char)
}

#[test]
fn cursor_byte_counts_utf8_widths() {
    let mut f = RulesField {
        label: "x",
        value: "aé—😀b".to_string(),
        placeholder: "",
        cursor: 0,
    };
    let expected = [0usize, 1, 3, 6, 10, 11, 11];
    for (cursor, want) in expected.iter().enumerate() {
        f.cursor = cursor;
        assert_eq!(f.cursor_byte(), *want);
    }
    f.cursor = 99;
    assert_eq!(f.cursor_byte(), f.value.len());
}
