use texthook::foreign_string::ForeignString;
use texthook::gateway::PendingQueue;
use texthook::hooks::{
    addst, standardstringentry, std_string_append, std_string_ctor, string_copy_n, ForwardAction,
    RenderAction, CAPS,
};
use texthook::tables::EncodingTables;

fn identity_table() -> Vec<u8> {
    let mut t = Vec::new();
    let mut i: usize = 0;
    while i < 256 {
        t.push(i as u8);
        i += 1;
    }
    t
}

fn entry_tables(utf: Vec<(u32, u8)>) -> EncodingTables {
    EncodingTables {
        simplify: identity_table(),
        uppercase: identity_table(),
        lowercase: identity_table(),
        capitalize: identity_table(),
        utf,
    }
}

#[test]
fn string_copy_n_forwards_unchanged_and_records_text() {
    let mut queue = PendingQueue::new();
    let action = string_copy_n(&mut queue, &b"hi\0".to_vec());
    assert!(matches!(action, ForwardAction::Original));
    assert_eq!(queue.line_count(), 1);
    assert_eq!(queue.line_at(0), b"hi".to_vec());
}

#[test]
fn string_copy_n_ignores_single_byte_source() {
    let mut queue = PendingQueue::new();
    let action = string_copy_n(&mut queue, &b"h".to_vec());
    assert!(matches!(action, ForwardAction::Original));
    assert_eq!(queue.line_count(), 0);
}

#[test]
fn std_string_ctor_records_text() {
    let mut queue = PendingQueue::new();
    let action = std_string_ctor(&mut queue, &b"built\0".to_vec());
    assert!(matches!(action, ForwardAction::Original));
    assert_eq!(queue.line_count(), 1);
    assert_eq!(queue.line_at(0), b"built".to_vec());
}

#[test]
fn std_string_append_records_text() {
    let mut queue = PendingQueue::new();
    let action = std_string_append(&mut queue, &b"word".to_vec());
    assert!(matches!(action, ForwardAction::Original));
    assert_eq!(queue.line_count(), 1);
    assert_eq!(queue.line_at(0), b"word".to_vec());
}

#[test]
fn addst_forwards_unchanged_and_records_text() {
    let mut queue = PendingQueue::new();
    let action = addst(&mut queue, &b"menu text".to_vec());
    assert!(matches!(action, RenderAction::Original));
    assert_eq!(queue.line_count(), 1);
    assert_eq!(queue.line_at(0), b"menu text".to_vec());
}

#[test]
fn hooks_share_the_dedup_queue() {
    let mut queue = PendingQueue::new();
    string_copy_n(&mut queue, &b"shared\0".to_vec());
    std_string_append(&mut queue, &b"shared".to_vec());
    addst(&mut queue, &b"shared".to_vec());
    assert_eq!(queue.line_count(), 1);
}

#[test]
fn stringentry_substitutes_mapped_code_point() {
    let tables = entry_tables(vec![(233, 130)]);
    let mut content = ForeignString::build_new(&b"ab".to_vec());
    let mut utf: Vec<u32> = vec![233, 0, 0, 0, 0, 0, 0, 0];
    let any = standardstringentry(&mut content, 10, 0, &mut utf, &tables);
    assert!(any);
    assert_eq!(content.read_bytes(), vec![b'a', b'b', 130]);
    assert_eq!(utf[0], 130);
}

#[test]
fn stringentry_capitalizes_when_flag_set() {
    let mut tables = entry_tables(vec![(233, 130)]);
    tables.capitalize[130] = 144;
    let mut content = ForeignString::build_new(&b"".to_vec());
    let mut utf: Vec<u32> = vec![233, 0, 0, 0, 0, 0, 0, 0];
    let any = standardstringentry(&mut content, 4, CAPS, &mut utf, &tables);
    assert!(any);
    assert_eq!(content.read_bytes(), vec![144]);
    assert_eq!(utf[0], 144);
}

#[test]
fn stringentry_stops_at_newline_sentinel() {
    let tables = entry_tables(vec![(233, 130), (234, 131)]);
    let mut content = ForeignString::build_new(&b"".to_vec());
    let mut utf: Vec<u32> = vec![233, 10, 234, 0, 0, 0, 0, 0];
    let any = standardstringentry(&mut content, 10, 0, &mut utf, &tables);
    assert!(any);
    assert_eq!(content.read_bytes(), vec![130]);
    assert_eq!(utf[2], 234);
}

#[test]
fn stringentry_respects_maxlen() {
    let tables = entry_tables(vec![(233, 130)]);
    let mut content = ForeignString::build_new(&b"abc".to_vec());
    let mut utf: Vec<u32> = vec![233, 0, 0, 0, 0, 0, 0, 0];
    let any = standardstringentry(&mut content, 3, 0, &mut utf, &tables);
    assert!(!any);
    assert_eq!(content.read_bytes(), b"abc".to_vec());
    assert_eq!(utf[0], 233);
}

#[test]
fn stringentry_skips_plain_ascii_code_points() {
    let tables = entry_tables(vec![(233, 130)]);
    let mut content = ForeignString::build_new(&b"x".to_vec());
    let mut utf: Vec<u32> = vec![100, 233, 0, 0, 0, 0, 0, 0];
    let any = standardstringentry(&mut content, 10, 0, &mut utf, &tables);
    assert!(any);
    assert_eq!(content.read_bytes(), vec![b'x', 130]);
    assert_eq!(utf[0], 100);
    assert_eq!(utf[1], 130);
}

#[test]
fn stringentry_leaves_unmapped_code_points_alone() {
    let tables = entry_tables(Vec::new());
    let mut content = ForeignString::build_new(&b"x".to_vec());
    let mut utf: Vec<u32> = vec![300, 0, 0, 0, 0, 0, 0, 0];
    let any = standardstringentry(&mut content, 10, 0, &mut utf, &tables);
    assert!(!any);
    assert_eq!(content.read_bytes(), b"x".to_vec());
    assert_eq!(utf[0], 300);
}
