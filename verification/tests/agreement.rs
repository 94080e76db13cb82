use splight::chars::{chars_of, lowered_chars_of, to_lower};
use splight::matching::filter_entries;
use splight::pattern::find;
use splight::replace::replace_first_str;
use splight::resolve::resolve_path;
use splight::split::{cut_str, join_strs, split_str};
use splight::squeeze::squeeze_str;

/// Every text over `alphabet` of at most `longest` characters.
fn texts(alphabet: &[char], longest: usize) -> Vec<String> {
    let mut all = vec![String::new()];
    let mut last = vec![String::new()];
    for _ in 0..longest {
        let mut next = Vec::new();
        for text in &last {
            for c in alphabet {
                let mut longer = text.clone();
                longer.push(*c);
                next.push(longer);
            }
        }
        all.extend(next.iter().cloned());
        last = next;
    }
    all
}

#[test]
fn lower_agrees_with_std() {
    for code in 0u32..0x3000 {
        if let Some(c) = char::from_u32(code) {
            assert_eq!(to_lower(c), c.to_ascii_lowercase());
        }
    }
    assert_eq!(lowered_chars_of("Straße ÄB"), "Straße ÄB".to_ascii_lowercase().chars().collect::<Vec<char>>());
}

#[test]
fn find_agrees_with_std() {
    let haystacks = texts(&['a', 'b', 'é'], 5);
    let needles = texts(&['a', 'b', 'é'], 2);
    for text in &haystacks {
        for pat in &needles {
            let expected = text.find(pat.as_str()).map(|at| text[..at].chars().count());
            assert_eq!(find(&chars_of(text), &chars_of(pat)), expected, "{:?} {:?}", text, pat);
        }
    }
}

#[test]
fn split_agrees_with_std() {
    let haystacks = texts(&['a', ' ', 'é'], 6);
    let mut seps = texts(&['a', ' ', 'é'], 2);
    seps.remove(0);
    for text in &haystacks {
        for sep in &seps {
            let expected: Vec<String> = text.split(sep.as_str()).map(|s| s.to_string()).collect();
            assert_eq!(split_str(text, sep), expected, "{:?} {:?}", text, sep);
        }
    }
}

#[test]
fn join_undoes_split() {
    let haystacks = texts(&['a', ' '], 7);
    let seps = texts(&['a', ' '], 2);
    for text in &haystacks {
        for sep in &seps {
            assert_eq!(&join_strs(&split_str(text, sep), sep), text, "{:?} {:?}", text, sep);
        }
    }
}

#[test]
fn join_agrees_with_std() {
    let pieces = texts(&['a', '-'], 2);
    for first in &pieces {
        for second in &pieces {
            for third in &pieces {
                let parts = vec![first.clone(), second.clone(), third.clone()];
                assert_eq!(join_strs(&parts, "-"), parts.join("-"));
                assert_eq!(join_strs(&parts, ""), parts.join(""));
                assert_eq!(join_strs(&parts[..2].to_vec(), "--"), parts[..2].join("--"));
            }
        }
    }
}

#[test]
fn cut_agrees_with_std() {
    let haystacks = texts(&['a', ' '], 6);
    let mut seps = texts(&['a', ' '], 2);
    seps.remove(0);
    for text in &haystacks {
        for sep in &seps {
            let expected = match text.split_once(sep.as_str()) {
                Some((before, after)) => (before.to_string(), Some(after.to_string())),
                None => (text.clone(), None),
            };
            assert_eq!(cut_str(text, sep), expected, "{:?} {:?}", text, sep);
        }
    }
}

#[test]
fn replace_agrees_with_std() {
    let haystacks = texts(&['P', 'A', '\\'], 6);
    let mut pats = texts(&['P', 'A', '\\'], 2);
    pats.remove(0);
    for text in &haystacks {
        for pat in &pats {
            assert_eq!(replace_first_str(text, pat, "C:\\x"), text.replacen(pat.as_str(), "C:\\x", 1));
        }
        assert_eq!(replace_first_str(text, "", "C:\\x"), text.replacen("", "C:\\x", 1));
    }
}

#[test]
fn filter_agrees_with_std() {
    let names = texts(&['a', 'B', 'b'], 4);
    let tokens = texts(&['a', 'B', 'b'], 2);
    for token in &tokens {
        let expected: Vec<usize> = names
            .iter()
            .enumerate()
            .filter(|(_, name)| name.to_ascii_lowercase().contains(&token.to_ascii_lowercase()))
            .map(|(place, _)| place)
            .collect();
        assert_eq!(filter_entries(&names, token), expected, "{:?}", token);
    }
}

/// The breadcrumbs and the name as one formatted string.
fn raw_by_std(stack: &[String], top: Option<&str>) -> String {
    let trail = if stack.is_empty() { String::new() } else { format!("{}\\", stack.join("\\")) };
    format!("{}{}", trail, top.unwrap_or(""))
}

/// One pass that cuts at doubled separators and joins with single ones.
fn one_pass(raw: &str) -> String {
    raw.split("\\\\").collect::<Vec<&str>>().join("\\")
}

/// The path with doubled separators made single until none is left.
fn path_by_std(stack: &[String], top: Option<&str>) -> String {
    let mut path = raw_by_std(stack, top);
    while path.contains("\\\\") {
        path = one_pass(&path);
    }
    path
}

#[test]
fn squeeze_agrees_with_std() {
    for text in &texts(&['a', '\\', 'é'], 7) {
        let mut kept: Vec<char> = text.chars().collect();
        kept.dedup_by(|next, last| *next == '\\' && *last == '\\');
        assert_eq!(squeeze_str(text, '\\'), kept.into_iter().collect::<String>(), "{:?}", text);
    }
}

#[test]
fn resolve_agrees_with_std() {
    let names = texts(&['a', '\\'], 3);
    for first in &names {
        for top in &names {
            assert_eq!(resolve_path(&Vec::new(), Some(top)), path_by_std(&[], Some(top)));
            let one = vec![first.clone()];
            assert_eq!(resolve_path(&one, None), path_by_std(&one, None));
            assert_eq!(resolve_path(&one, Some(top)), path_by_std(&one, Some(top)));
            for second in &names {
                let two = vec![first.clone(), second.clone()];
                assert_eq!(resolve_path(&two, Some(top)), path_by_std(&two, Some(top)));
            }
        }
    }
}

#[test]
fn resolved_path_never_has_a_doubled_separator() {
    let names = texts(&['a', '\\'], 4);
    for first in &names {
        for top in &names {
            let stack = vec![first.clone()];
            let path = resolve_path(&stack, Some(top));
            assert!(!path.contains("\\\\"), "{:?} {:?} gave {:?}", first, top, path);
            let raw = raw_by_std(&stack, Some(top));
            if !raw.contains("\\\\\\") {
                assert_eq!(path, one_pass(&raw), "{:?} {:?}", first, top);
            }
            if !raw.contains("\\\\") {
                assert_eq!(path, raw);
            }
        }
    }
}
