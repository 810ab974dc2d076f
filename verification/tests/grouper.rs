use code_monkey::grouper::{group_into_blocks, ActionBlock, BlockType};
use code_monkey::parser::types::{Directive, FrontMatter, ParsedLine, Script, SlideAction};

fn make_script(directives: Vec<Directive>) -> Script {
    Script {
        front_matter: FrontMatter::default(),
        lines: directives
            .into_iter()
            .enumerate()
            .map(|(i, directive)| ParsedLine {
                line_number: i + 1,
                directive,
            })
            .collect(),
    }
}

#[test]
fn test_group_single_action() {
    let script = make_script(vec![Directive::Type("hello".into()), Directive::Run]);
    let blocks = group_into_blocks(&script);
    assert_eq!(blocks.len(), 1);
    assert_eq!(blocks[0].actions.len(), 2);
    assert_eq!(blocks[0].block_type, BlockType::Action);
}

#[test]
fn test_group_say_before_action() {
    let script = make_script(vec![
        Directive::Say("text".into()),
        Directive::Focus("T".into()),
        Directive::Type("cmd".into()),
        Directive::Run,
    ]);
    let blocks = group_into_blocks(&script);
    assert_eq!(blocks.len(), 1);
    assert_eq!(blocks[0].narration, Some("text".to_string()));
    assert_eq!(blocks[0].actions.len(), 3);
}

#[test]
fn test_group_multiple_say_accumulate() {
    let script = make_script(vec![
        Directive::Say("line1".into()),
        Directive::Say("line2".into()),
        Directive::Type("x".into()),
    ]);
    let blocks = group_into_blocks(&script);
    assert_eq!(blocks.len(), 1);
    assert_eq!(blocks[0].narration, Some("line1\nline2".to_string()));
}

#[test]
fn test_group_pause_standalone() {
    let script = make_script(vec![
        Directive::Type("x".into()),
        Directive::Pause(None),
        Directive::Type("y".into()),
    ]);
    let blocks = group_into_blocks(&script);
    assert_eq!(blocks.len(), 3);
    assert_eq!(blocks[0].block_type, BlockType::Action);
    assert_eq!(blocks[1].block_type, BlockType::Pause(None));
    assert_eq!(blocks[2].block_type, BlockType::Action);
}

#[test]
fn test_group_pause_with_timeout() {
    let script = make_script(vec![Directive::Pause(Some(3))]);
    let blocks = group_into_blocks(&script);
    assert_eq!(blocks.len(), 1);
    assert_eq!(blocks[0].block_type, BlockType::Pause(Some(3)));
}

#[test]
fn test_group_section_header() {
    let script = make_script(vec![
        Directive::Section("Intro".into()),
        Directive::Say("hello".into()),
        Directive::Type("x".into()),
    ]);
    let blocks = group_into_blocks(&script);
    assert_eq!(blocks.len(), 1);
    assert_eq!(blocks[0].section, Some("Intro".to_string()));
}

#[test]
fn test_group_empty_script() {
    let script = make_script(vec![]);
    let blocks = group_into_blocks(&script);
    assert!(blocks.is_empty());
}

#[test]
fn test_group_say_only() {
    let script = make_script(vec![Directive::Say("text".into())]);
    let blocks = group_into_blocks(&script);
    assert_eq!(blocks.len(), 1);
    assert_eq!(blocks[0].block_type, BlockType::NarrationOnly);
    assert_eq!(blocks[0].narration, Some("text".to_string()));
}

#[test]
fn test_group_complex_script() {
    let script = make_script(vec![
        Directive::Section("Intro".into()),
        Directive::Say("Welcome".into()),
        Directive::Focus("Terminal".into()),
        Directive::Type("echo hi".into()),
        Directive::Run,
        Directive::Pause(None),
        Directive::Say("Now watch".into()),
        Directive::Type("ls".into()),
        Directive::Run,
        Directive::Pause(Some(3)),
        Directive::Section("Demo".into()),
        Directive::Slide(SlideAction::Next),
        Directive::Say("That's all".into()),
    ]);
    let blocks = group_into_blocks(&script);
    assert_eq!(blocks.len(), 6);
    // Block 0: action (Focus + Type + Run) with narration "Welcome"
    assert_eq!(blocks[0].block_type, BlockType::Action);
    assert_eq!(blocks[0].narration, Some("Welcome".to_string()));
    assert_eq!(blocks[0].actions.len(), 3);
    // Block 1: pause
    assert_eq!(blocks[1].block_type, BlockType::Pause(None));
    // Block 2: action (Type + Run) with narration "Now watch"
    assert_eq!(blocks[2].block_type, BlockType::Action);
    assert_eq!(blocks[2].narration, Some("Now watch".to_string()));
    // Block 3: pause with timeout
    assert_eq!(blocks[3].block_type, BlockType::Pause(Some(3)));
    // Block 4: action (Slide next) with section "Demo"
    assert_eq!(blocks[4].block_type, BlockType::Action);
    assert_eq!(blocks[4].section, Some("Demo".to_string()));
    // Block 5: narration only "That's all"
    assert_eq!(blocks[5].block_type, BlockType::NarrationOnly);
    assert_eq!(blocks[5].narration, Some("That's all".to_string()));
}

fn no_actions() -> &'static [Directive] {
    &[]
}

fn summary(block: &ActionBlock) -> (Option<&str>, &[Directive], Option<&str>, BlockType) {
    (
        block.narration.as_deref(),
        block.actions.as_slice(),
        block.section.as_deref(),
        block.block_type,
    )
}

#[test]
fn focus_and_run_make_one_action_block_without_narration() {
    let script = make_script(vec![Directive::Focus("Terminal".into()), Directive::Run]);
    let blocks = group_into_blocks(&script);
    assert_eq!(blocks.len(), 1);
    assert_eq!(
        summary(&blocks[0]),
        (
            None,
            &[Directive::Focus("Terminal".into()), Directive::Run][..],
            None,
            BlockType::Action
        )
    );
}

#[test]
fn say_after_actions_flushes_them_with_the_earlier_narration() {
    let script = make_script(vec![
        Directive::Say("one".into()),
        Directive::Run,
        Directive::Say("two".into()),
        Directive::Run,
    ]);
    let blocks = group_into_blocks(&script);
    assert_eq!(blocks.len(), 2);
    assert_eq!(
        summary(&blocks[0]),
        (Some("one"), &[Directive::Run][..], None, BlockType::Action)
    );
    assert_eq!(
        summary(&blocks[1]),
        (Some("two"), &[Directive::Run][..], None, BlockType::Action)
    );
}

#[test]
fn pause_takes_the_pending_narration_and_no_actions() {
    let script = make_script(vec![
        Directive::Say("a".into()),
        Directive::Say("b".into()),
        Directive::Pause(Some(3)),
        Directive::Run,
    ]);
    let blocks = group_into_blocks(&script);
    assert_eq!(blocks.len(), 2);
    assert_eq!(
        summary(&blocks[0]),
        (Some("a\nb"), no_actions(), None, BlockType::Pause(Some(3)))
    );
    assert_eq!(
        summary(&blocks[1]),
        (None, &[Directive::Run][..], None, BlockType::Action)
    );
}

#[test]
fn pause_after_actions_flushes_the_narration_into_the_action_block() {
    let script = make_script(vec![
        Directive::Say("a".into()),
        Directive::Run,
        Directive::Pause(None),
    ]);
    let blocks = group_into_blocks(&script);
    assert_eq!(blocks.len(), 2);
    assert_eq!(
        summary(&blocks[0]),
        (Some("a"), &[Directive::Run][..], None, BlockType::Action)
    );
    assert_eq!(
        summary(&blocks[1]),
        (None, no_actions(), None, BlockType::Pause(None))
    );
}

#[test]
fn section_change_keeps_pending_narration_for_the_next_block() {
    let script = make_script(vec![
        Directive::Section("One".into()),
        Directive::Say("kept".into()),
        Directive::Section("Two".into()),
        Directive::Run,
        Directive::Section("Three".into()),
        Directive::Say("tail".into()),
    ]);
    let blocks = group_into_blocks(&script);
    assert_eq!(blocks.len(), 2);
    assert_eq!(
        summary(&blocks[0]),
        (Some("kept"), &[Directive::Run][..], Some("Two"), BlockType::Action)
    );
    assert_eq!(
        summary(&blocks[1]),
        (Some("tail"), no_actions(), Some("Three"), BlockType::NarrationOnly)
    );
}

#[test]
fn section_alone_gives_no_block() {
    let script = make_script(vec![Directive::Section("Only".into())]);
    assert!(group_into_blocks(&script).is_empty());
}

#[test]
fn grouping_is_the_same_for_the_same_directives() {
    let directives = || {
        vec![
            Directive::Say("hi".into()),
            Directive::Key("cmd+s".into()),
            Directive::Pause(None),
            Directive::Exec("ls".into()),
            Directive::Wait(2),
            Directive::Clear,
        ]
    };
    let first = make_script(directives());
    let mut second = make_script(directives());
    second.front_matter.typing_speed = 1;
    second.front_matter.title = Some("other".into());
    for line in second.lines.iter_mut() {
        line.line_number += 100;
    }
    let a = group_into_blocks(&first);
    let b = group_into_blocks(&second);
    let again = group_into_blocks(&first);
    assert_eq!(a.len(), 3);
    assert_eq!(a.len(), b.len());
    for i in 0..a.len() {
        assert_eq!(summary(&a[i]), summary(&b[i]));
        assert_eq!(summary(&a[i]), summary(&again[i]));
    }
}

#[test]
fn only_action_blocks_carry_actions_and_all_of_them_are_executable() {
    let script = make_script(vec![
        Directive::Say("s".into()),
        Directive::Pause(None),
        Directive::Type("t".into()),
        Directive::Section("x".into()),
        Directive::Slide(SlideAction::GoTo(3)),
        Directive::Say("u".into()),
        Directive::Pause(Some(1)),
        Directive::Say("v".into()),
    ]);
    let blocks = group_into_blocks(&script);
    assert_eq!(blocks.len(), 5);
    for block in &blocks {
        match block.block_type {
            BlockType::Action => assert!(!block.actions.is_empty()),
            BlockType::Pause(_) => assert!(block.actions.is_empty()),
            BlockType::NarrationOnly => {
                assert!(block.actions.is_empty());
                assert!(block.narration.is_some());
            }
        }
        for action in &block.actions {
            assert!(!matches!(
                action,
                Directive::Say(_) | Directive::Pause(_) | Directive::Section(_)
            ));
        }
    }
}
