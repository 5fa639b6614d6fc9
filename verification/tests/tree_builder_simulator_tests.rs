use cool_thing::tag_name::{policy_for, tag_name_hash_of, TextParsingMode};
use cool_thing::tree_builder_simulator::TreeBuilderSimulator;

#[test]
fn raw_text_policy_follows_the_top_of_stack() {
    let mut sim = TreeBuilderSimulator::new();
    assert_eq!(sim.current_raw_text_policy(), TextParsingMode::Data);
    sim.notify_start_tag(tag_name_hash_of(b"div"), false);
    assert_eq!(sim.current_raw_text_policy(), TextParsingMode::Data);
    sim.notify_start_tag(tag_name_hash_of(b"script"), false);
    assert_eq!(sim.current_raw_text_policy(), TextParsingMode::RawText);
    sim.notify_end_tag(tag_name_hash_of(b"script"));
    assert_eq!(sim.current_raw_text_policy(), TextParsingMode::Data);
}

#[test]
fn rcdata_elements() {
    assert_eq!(policy_for(tag_name_hash_of(b"textarea")), TextParsingMode::RCData);
    assert_eq!(policy_for(tag_name_hash_of(b"title")), TextParsingMode::RCData);
    assert_eq!(policy_for(tag_name_hash_of(b"style")), TextParsingMode::RawText);
    assert_eq!(policy_for(tag_name_hash_of(b"script")), TextParsingMode::RawText);
    assert_eq!(policy_for(tag_name_hash_of(b"div")), TextParsingMode::Data);
}

#[test]
fn self_closing_tags_are_not_pushed() {
    let mut sim = TreeBuilderSimulator::new();
    sim.notify_start_tag(tag_name_hash_of(b"br"), true);
    assert_eq!(sim.depth(), 0);
}

#[test]
fn end_tag_closes_intervening_entries() {
    let mut sim = TreeBuilderSimulator::new();
    sim.notify_start_tag(tag_name_hash_of(b"div"), false);
    sim.notify_start_tag(tag_name_hash_of(b"p"), false);
    sim.notify_start_tag(tag_name_hash_of(b"span"), false);
    assert_eq!(sim.depth(), 3);
    sim.notify_end_tag(tag_name_hash_of(b"div"));
    assert_eq!(sim.depth(), 0);
}

#[test]
fn stray_end_tag_is_ignored() {
    let mut sim = TreeBuilderSimulator::new();
    sim.notify_start_tag(tag_name_hash_of(b"div"), false);
    sim.notify_end_tag(tag_name_hash_of(b"span"));
    assert_eq!(sim.depth(), 1);
}

#[test]
fn cdata_follows_foreign_content() {
    let mut sim = TreeBuilderSimulator::new();
    assert!(!sim.cdata_allowed());
    sim.notify_start_tag(tag_name_hash_of(b"svg"), false);
    assert!(sim.cdata_allowed());
    sim.notify_end_tag(tag_name_hash_of(b"svg"));
    assert!(!sim.cdata_allowed());
    sim.notify_start_tag(tag_name_hash_of(b"math"), false);
    assert!(sim.cdata_allowed());
}
