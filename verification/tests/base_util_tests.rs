use multiutil::{base_name, Base, BaseIter};

#[test]
fn test_new_iter() {
    assert_eq!(BaseIter::new().next(), Some(Base::Identity));
}

#[test]
fn test_last_iter() {
    let mut iter: BaseIter = Base::Base256Emoji.into();
    assert_eq!(iter.next(), None)
}

#[test]
fn test_all_iter() {
    let mut iter = BaseIter::new();
    while let Some(b) = iter.next() {
        println!("{}", base_name(b));
    }
}

#[test]
fn test_base_name() {
    assert_eq!(base_name(Base::Base16Upper), "Base16Upper".to_string());
}

#[test]
fn test_iter_covers_every_base_once() {
    let mut iter = BaseIter::new();
    let mut seen: Vec<Base> = Vec::new();
    while let Some(b) = iter.next() {
        assert!(!seen.contains(&b));
        seen.push(b);
    }
    assert_eq!(seen.len(), 24);
    assert_eq!(seen[0], Base::Identity);
    assert_eq!(seen[23], Base::Base256Emoji);
}

#[test]
fn test_sigils_unique_and_recoverable() {
    let mut iter = BaseIter::new();
    let mut codes: Vec<char> = Vec::new();
    while let Some(b) = iter.next() {
        let c = b.code();
        assert!(!codes.contains(&c));
        codes.push(c);
        assert_eq!(Base::from_code(c), Some(b));
    }
    assert_eq!(Base::from_code('!'), None);
}
