use fluff::serial::cell_message;
use fluff::shapes::Rectangle;
use fluff::text::{
    chars_of, contains_chars, is_whitespace, push_decimal, split_lines, split_tokens, starts_with,
    string_of,
};

fn owned(v: &[Vec<char>]) -> Vec<String> {
    v.iter().map(|l| l.iter().collect()).collect()
}

#[test]
fn lines_split_like_str_lines() {
    let text = "a\r\nb\n\nc\rd\n";
    let got = owned(&split_lines(text));
    let want: Vec<String> = text.lines().map(str::to_owned).collect();
    assert_eq!(got, want);
    assert_eq!(got, vec!["a", "b", "", "c\rd"]);
}

#[test]
fn lines_of_empty_and_unterminated_text() {
    assert!(split_lines("").is_empty());
    assert_eq!(owned(&split_lines("x")), vec!["x"]);
    assert_eq!(owned(&split_lines("\n")), vec![""]);
    assert_eq!(owned(&split_lines("x\r")), vec!["x\r"]);
}

#[test]
fn tokens_split_like_split_whitespace() {
    let line = "  let\tfoo =\u{3000}PARAMETER1(uv);  ";
    let got = owned(&split_tokens(&chars_of(line)));
    let want: Vec<String> = line.split_whitespace().map(str::to_owned).collect();
    assert_eq!(got, want);
    assert_eq!(got, vec!["let", "foo", "=", "PARAMETER1(uv);"]);
}

#[test]
fn whitespace_matches_char_is_whitespace() {
    for c in ['\t', '\n', '\u{b}', ' ', '\u{85}', '\u{a0}', '\u{2009}', '\u{3000}', 'a', '_', '\u{200b}'] {
        assert_eq!(is_whitespace(c), c.is_whitespace(), "{:?}", c);
    }
}

#[test]
fn substring_and_prefix() {
    let s = chars_of("var PARAMETER3 = x;");
    assert!(contains_chars(&s, &chars_of("PARAMETER3")));
    assert!(!contains_chars(&s, &chars_of("PARAMETER4")));
    assert!(contains_chars(&s, &chars_of("")));
    assert!(starts_with(&chars_of("#import utils"), &chars_of("#import")));
    assert!(!starts_with(&chars_of(" #import"), &chars_of("#import")));
    assert!(!starts_with(&chars_of("#imp"), &chars_of("#import")));
}

#[test]
fn decimal_numerals() {
    let mut s = String::from("g");
    push_decimal(&mut s, 0);
    push_decimal(&mut s, 7);
    push_decimal(&mut s, 10);
    push_decimal(&mut s, 4_294_967_295);
    assert_eq!(s, "g07104294967295");
    assert_eq!(string_of(&vec!['a', 'b']), "ab");
}

#[test]
fn default_quad_has_two_counter_clockwise_triangles() {
    let q = Rectangle::default();
    assert_eq!(q.vertices.len(), 4);
    assert_eq!(q.indices, vec![0, 1, 3, 1, 2, 3]);
    let pos: Vec<[i32; 3]> = q.vertices.iter().map(|v| v.position).collect();
    assert_eq!(pos, vec![[-1, -1, 0], [1, -1, 0], [1, 1, 0], [-1, 1, 0]]);
    let tex: Vec<[u32; 2]> = q.vertices.iter().map(|v| v.tex_coords).collect();
    assert_eq!(tex, vec![[0, 1], [1, 1], [1, 0], [0, 0]]);
    for t in q.indices.chunks(3) {
        let (a, b, c) = (pos[t[0] as usize], pos[t[1] as usize], pos[t[2] as usize]);
        let turn = (b[0] - a[0]) * (c[1] - a[1]) - (b[1] - a[1]) * (c[0] - a[0]);
        assert!(turn > 0);
    }
}

#[test]
fn quad_follows_centre_and_extent() {
    let q = Rectangle::new(10, -4, 3, 2);
    let pos: Vec<[i32; 3]> = q.vertices.iter().map(|v| v.position).collect();
    assert_eq!(pos, vec![[7, -6, 0], [13, -6, 0], [13, -2, 0], [7, -2, 0]]);
    assert_eq!(q.indices.len(), 6);
}

#[test]
fn serial_lines_pad_indices_to_two_digits() {
    assert_eq!(cell_message(3, 14, '1'), "03:14:1\n");
    assert_eq!(cell_message(0, 0, '0'), "00:00:0\n");
    assert_eq!(cell_message(120, 7, '1'), "120:07:1\n");
    assert_eq!(cell_message(42, 9, '0'), format!("{:02}:{:02}:{}\n", 42, 9, '0'));
}
