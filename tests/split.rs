use text_components::resolving::{NoResolutor, TextResolutor};

fn split(s: &str) -> Vec<(String, usize)> {
    NoResolutor.split_translation(String::from(s))
}

fn pairs(v: &[(&str, usize)]) -> Vec<(String, usize)> {
    v.iter().map(|(s, i)| (String::from(*s), *i)).collect()
}

#[test]
fn sequential_markers() {
    assert_eq!(split("a%sb%sc"), pairs(&[("a", 1), ("b", 2), ("c", 0)]));
}

#[test]
fn positional_markers() {
    assert_eq!(split("%2$sX%1$sY"), pairs(&[("", 2), ("X", 1), ("Y", 0)]));
}

#[test]
fn no_markers() {
    assert_eq!(split("plain"), pairs(&[("plain", 0)]));
    assert_eq!(split(""), pairs(&[("", 0)]));
}

#[test]
fn mixed_markers_and_edges() {
    assert_eq!(split("%s%1$s%s"), pairs(&[("", 1), ("", 1), ("", 2), ("", 0)]));
    assert_eq!(split("%9$s%"), pairs(&[("%9$s%", 0)]));
    assert_eq!(split("x%8$s"), pairs(&[("x", 8), ("", 0)]));
}
