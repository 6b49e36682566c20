use richter::progs::string_table::StringTable;
use richter::progs::{ProgsError, StringId};

fn table(s: &str) -> StringTable {
    StringTable::new(s.as_bytes().to_vec())
}

#[test]
fn id_from_i32_checks_range() {
    let t = table("abc\0def\0");
    assert_eq!(t.id_from_i32(4), Ok(StringId(4)));
    assert_eq!(t.id_from_i32(-1), Err(ProgsError::NegativeStringId));
    assert_eq!(t.id_from_i32(8), Err(ProgsError::NoSuchString(8)));
    assert_eq!(t.len(), 8);
}

#[test]
fn get_reads_up_to_the_terminator() {
    let mut t = table("abc\0def\0");
    assert_eq!(t.get(StringId(0)).as_deref(), Some("abc"));
    assert_eq!(t.get(StringId(4)).as_deref(), Some("def"));
    assert_eq!(t.get(StringId(5)).as_deref(), Some("ef"));
    // cached lengths give the same answer
    assert_eq!(t.get(StringId(4)).as_deref(), Some("def"));
    assert_eq!(t.get(StringId(8)), None);
}

#[test]
fn find_tries_offsets_of_the_target_characters() {
    let t = table("ab\0b\0");
    // "b" is tried at offset 0 only: its single character starts there
    assert_eq!(t.find("b"), None);
    // "ab" is tried at offsets 0 and 1
    assert_eq!(t.find("ab"), Some(StringId(0)));
    assert_eq!(t.find(""), None);
    let t = table("xb\0");
    // "zb" is tried at offset 1, where "b\0" does not hold "zb"
    assert_eq!(t.find("zb"), None);
    let t = table("zab\0");
    assert_eq!(t.find("ab"), Some(StringId(1)));
    let t = table("zzzab\0");
    assert_eq!(t.find("zab"), Some(StringId(2)));
}

#[test]
fn insert_then_get_gives_back_the_string() {
    let mut t = table("x\0");
    let id = t.insert("hello");
    assert_eq!(id, StringId(2));
    assert_eq!(t.get(id).as_deref(), Some("hello"));
    let id2 = t.insert("wörld");
    assert_eq!(id2, StringId(7));
    assert_eq!(t.get(id2).as_deref(), Some("wörld"));
    assert_eq!(t.len(), 7 + "wörld".len());
}

#[test]
fn find_or_insert_inserts_unterminated() {
    let mut t = table("abc\0");
    assert_eq!(t.find_or_insert("abc"), StringId(0));
    assert_eq!(t.len(), 4);
    let id = t.find_or_insert("q");
    assert_eq!(id, StringId(4));
    // inserted strings carry no terminator, so they are not found again
    assert_eq!(t.find_or_insert("q"), StringId(5));
    assert_eq!(t.len(), 6);
}

#[test]
fn iter_splits_at_terminators() {
    let t = table("abc\0\0de\0");
    assert_eq!(t.iter(), vec!["abc".to_string(), String::new(), "de".to_string(), String::new()]);
    let t = table("");
    assert_eq!(t.iter(), vec![String::new()]);
}
