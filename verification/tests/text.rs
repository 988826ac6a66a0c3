use liqi::text::split_text;

fn pieces(text: &str) -> Vec<String> {
    split_text(text, '.')
}

#[test]
fn split_text_without_separator() {
    assert_eq!(pieces("lobby"), vec!["lobby"]);
}

#[test]
fn split_text_empty() {
    assert_eq!(pieces(""), vec![""]);
}

#[test]
fn split_text_dotted_name() {
    assert_eq!(pieces(".lq.Lobby.login"), vec!["", "lq", "Lobby", "login"]);
}

#[test]
fn split_text_keeps_empty_pieces() {
    assert_eq!(pieces("a..b."), vec!["a", "", "b", ""]);
    assert_eq!(pieces("."), vec!["", ""]);
}

#[test]
fn split_text_counts_characters_not_bytes() {
    assert_eq!(pieces("é.日本.x"), vec!["é", "日本", "x"]);
}

#[test]
fn split_text_other_separator() {
    assert_eq!(split_text("a.b/c", '/'), vec!["a.b", "c"]);
}

#[test]
fn split_text_agrees_with_std() {
    for text in ["", ".", "..", "a", "a.b", ".a.b.", "lq.NotifyPing", "x.y.z.w.v"] {
        let expected: Vec<String> = text.split('.').map(String::from).collect();
        assert_eq!(pieces(text), expected);
    }
}
