//! Grouping of a flat directive stream into the blocks a presenter steps through.
//!
//! The grouping is a fold over the directives that carries three accumulators:
//! the narration lines not yet attached to a block, the executable directives
//! not yet attached to a block, and the section that is current.

use vstd::prelude::*;
use vstd::string::StringExecFns;

use crate::parser::types::{
    clone_directives, clone_text, Directive, DirectiveView, Script, ScriptView,
};

verus! {

/// What a presenter does with a block.
#[derive(Debug, PartialEq, Eq, Clone, Copy, Structural)]
pub enum BlockType {
    Action,
    Pause(Option<u64>),
    NarrationOnly,
}

/// The unit of narration and execution.
#[derive(Debug)]
pub struct ActionBlock {
    pub narration: Option<String>,
    pub actions: Vec<Directive>,
    pub section: Option<String>,
    pub block_type: BlockType,
}

/// The value of an [`ActionBlock`].
pub struct ActionBlockView {
    pub narration: Option<Seq<char>>,
    pub actions: Seq<DirectiveView>,
    pub section: Option<Seq<char>>,
    pub block_type: BlockType,
}

impl ActionBlockView {
    /// What every block that the grouper emits satisfies: only an `Action`
    /// block carries directives, it carries at least one, all of them are
    /// executable, and a `NarrationOnly` block has narration.
    pub open spec fn well_formed(self) -> bool {
        &&& forall|i: int| 0 <= i < self.actions.len() ==> (#[trigger] self.actions[i]).is_executable()
        &&& match self.block_type {
            BlockType::Action => self.actions.len() > 0,
            BlockType::Pause(_) => self.actions.len() == 0,
            BlockType::NarrationOnly => self.actions.len() == 0 && self.narration is Some,
        }
    }
}

impl View for ActionBlock {
    type V = ActionBlockView;

    open spec fn view(&self) -> ActionBlockView {
        ActionBlockView {
            narration: self.narration.deep_view(),
            actions: self.actions.deep_view(),
            section: self.section.deep_view(),
            block_type: self.block_type,
        }
    }
}

impl DeepView for ActionBlock {
    type V = ActionBlockView;

    open spec fn deep_view(&self) -> ActionBlockView {
        self.view()
    }
}

impl Clone for ActionBlock {
    fn clone(&self) -> (copy: Self)
        ensures
            copy@ == self@,
    {
        ActionBlock {
            narration: clone_text(&self.narration),
            actions: clone_directives(self.actions.as_slice()),
            section: clone_text(&self.section),
            block_type: self.block_type,
        }
    }
}

/// The lines joined by a newline between each two neighbours.
pub open spec fn join_lines(lines: Seq<Seq<char>>) -> Seq<char>
    decreases lines.len(),
{
    if lines.len() == 0 {
        Seq::empty()
    } else if lines.len() == 1 {
        lines[0]
    } else {
        join_lines(lines.drop_last()) + seq!['\n'] + lines.last()
    }
}

/// The narration of a block that takes all the pending lines.
pub open spec fn flushed_narration(lines: Seq<Seq<char>>) -> Option<Seq<char>> {
    if lines.len() == 0 {
        None
    } else {
        Some(join_lines(lines))
    }
}

/// The accumulators of the grouping, with the blocks emitted so far.
pub struct GroupState {
    pub blocks: Seq<ActionBlockView>,
    pub narration: Seq<Seq<char>>,
    pub actions: Seq<DirectiveView>,
    pub section: Option<Seq<char>>,
}

impl GroupState {
    /// Nothing emitted, nothing pending, no section.
    pub open spec fn initial() -> GroupState {
        GroupState {
            blocks: Seq::empty(),
            narration: Seq::empty(),
            actions: Seq::empty(),
            section: None,
        }
    }

    /// Emits the pending actions, if any, as an `Action` block that takes the
    /// pending narration and the current section.
    pub open spec fn flush_actions(self) -> GroupState {
        if self.actions.len() > 0 {
            GroupState {
                blocks: self.blocks.push(
                    ActionBlockView {
                        narration: flushed_narration(self.narration),
                        actions: self.actions,
                        section: self.section,
                        block_type: BlockType::Action,
                    },
                ),
                narration: Seq::empty(),
                actions: Seq::empty(),
                section: self.section,
            }
        } else {
            self
        }
    }

    /// The state after one more directive.
    pub open spec fn step(self, directive: DirectiveView) -> GroupState {
        match directive {
            DirectiveView::Say(text) => {
                let flushed = self.flush_actions();
                GroupState { narration: flushed.narration.push(text), ..flushed }
            },
            DirectiveView::Section(name) => {
                let flushed = self.flush_actions();
                GroupState { section: Some(name), ..flushed }
            },
            DirectiveView::Pause(timeout) => {
                let flushed = self.flush_actions();
                GroupState {
                    blocks: flushed.blocks.push(
                        ActionBlockView {
                            narration: flushed_narration(flushed.narration),
                            actions: Seq::empty(),
                            section: flushed.section,
                            block_type: BlockType::Pause(timeout),
                        },
                    ),
                    narration: Seq::empty(),
                    ..flushed
                }
            },
            _ => GroupState { actions: self.actions.push(directive), ..self },
        }
    }

    /// The state after all of `directives`, taken in order.
    pub open spec fn after(directives: Seq<DirectiveView>) -> GroupState
        decreases directives.len(),
    {
        if directives.len() == 0 {
            GroupState::initial()
        } else {
            GroupState::after(directives.drop_last()).step(directives.last())
        }
    }

    /// The blocks once the input has ended: pending actions become a last
    /// `Action` block; with none pending, pending narration becomes a last
    /// `NarrationOnly` block.
    pub open spec fn finish(self) -> Seq<ActionBlockView> {
        if self.actions.len() > 0 {
            self.flush_actions().blocks
        } else if self.narration.len() > 0 {
            self.blocks.push(
                ActionBlockView {
                    narration: flushed_narration(self.narration),
                    actions: Seq::empty(),
                    section: self.section,
                    block_type: BlockType::NarrationOnly,
                },
            )
        } else {
            self.blocks
        }
    }

    /// Every emitted block is well formed and every pending action is executable.
    pub open spec fn well_formed(self) -> bool {
        &&& forall|i: int| 0 <= i < self.blocks.len() ==> (#[trigger] self.blocks[i]).well_formed()
        &&& forall|i: int| 0 <= i < self.actions.len() ==> (#[trigger] self.actions[i]).is_executable()
    }
}

/// The blocks that a directive sequence is grouped into.
pub open spec fn group(directives: Seq<DirectiveView>) -> Seq<ActionBlockView> {
    GroupState::after(directives).finish()
}

/// Joins the pending narration lines by newlines and clears them; `None` when
/// no line is pending.
pub fn flush_narration(narration: &mut Vec<String>) -> (text: Option<String>)
    ensures
        text.deep_view() == flushed_narration(old(narration).deep_view()),
        final(narration)@.len() == 0,
{
    if narration.len() == 0 {
        return None;
    }
    let ghost lines = narration.deep_view();
    let mut text = narration[0].clone();
    assert(lines.take(1) =~= seq![lines[0]]);
    let mut i: usize = 1;
    while i < narration.len()
        invariant
            1 <= i <= narration.len(),
            lines == narration.deep_view(),
            text@ == join_lines(lines.take(i as int)),
        decreases narration.len() - i,
    {
        text.push('\n');
        text.append(narration[i].as_str());
        proof {
            let upto = lines.take(i + 1);
            assert(upto.drop_last() =~= lines.take(i as int));
            assert(upto.last() == narration@[i as int]@);
            assert(text@ =~= join_lines(upto.drop_last()) + seq!['\n'] + upto.last());
        }
        i += 1;
    }
    assert(lines.take(i as int) =~= lines);
    narration.clear();
    Some(text)
}

/// Groups the directives of `script`, in order, into blocks.
///
/// The result depends on the directives alone: neither the line numbers
/// nor the front matter enter it.
pub fn group_into_blocks(script: &Script) -> (blocks: Vec<ActionBlock>)
    ensures
        blocks.deep_view() == group(script@.directives()),
{
    let mut blocks: Vec<ActionBlock> = Vec::new();
    let mut current_narration: Vec<String> = Vec::new();
    let mut current_actions: Vec<Directive> = Vec::new();
    let mut current_section: Option<String> = None;
    let ghost directives = script@.directives();

    assert(blocks.deep_view() =~= GroupState::initial().blocks);
    assert(current_narration.deep_view() =~= GroupState::initial().narration);
    assert(current_actions.deep_view() =~= GroupState::initial().actions);
    assert(directives.take(0) =~= Seq::empty());

    let mut i: usize = 0;
    while i < script.lines.len()
        invariant
            i <= script.lines.len(),
            directives == script@.directives(),
            directives.len() == script.lines.len(),
            GroupState::after(directives.take(i as int)) == (GroupState {
                blocks: blocks.deep_view(),
                narration: current_narration.deep_view(),
                actions: current_actions.deep_view(),
                section: current_section.deep_view(),
            }),
        decreases script.lines.len() - i,
    {
        let ghost before = GroupState::after(directives.take(i as int));
        let directive = &script.lines[i].directive;
        proof {
            let upto = directives.take(i + 1);
            assert(upto.drop_last() =~= directives.take(i as int));
            assert(upto.last() == directive@);
            assert(GroupState::after(upto) == before.step(directive@));
        }
        match directive {
            Directive::Say(text) => {
                if current_actions.len() > 0 {
                    let narration = flush_narration(&mut current_narration);
                    let actions = current_actions;
                    current_actions = Vec::new();
                    let ghost emitted = blocks.deep_view();
                    blocks.push(
                        ActionBlock {
                            narration,
                            actions,
                            section: clone_text(&current_section),
                            block_type: BlockType::Action,
                        },
                    );
                    assert(blocks.deep_view() =~= emitted.push(blocks@.last()@));
                    assert(current_actions.deep_view() =~= Seq::empty());
                    assert(current_narration.deep_view() =~= Seq::empty());
                }
                let ghost pending = current_narration.deep_view();
                current_narration.push(text.clone());
                assert(current_narration.deep_view() =~= pending.push(text@));
            },
            Directive::Section(name) => {
                if current_actions.len() > 0 {
                    let narration = flush_narration(&mut current_narration);
                    let actions = current_actions;
                    current_actions = Vec::new();
                    let ghost emitted = blocks.deep_view();
                    blocks.push(
                        ActionBlock {
                            narration,
                            actions,
                            section: clone_text(&current_section),
                            block_type: BlockType::Action,
                        },
                    );
                    assert(blocks.deep_view() =~= emitted.push(blocks@.last()@));
                    assert(current_actions.deep_view() =~= Seq::empty());
                    assert(current_narration.deep_view() =~= Seq::empty());
                }
                current_section = Some(name.clone());
            },
            Directive::Pause(timeout) => {
                if current_actions.len() > 0 {
                    let narration = flush_narration(&mut current_narration);
                    let actions = current_actions;
                    current_actions = Vec::new();
                    let ghost emitted = blocks.deep_view();
                    blocks.push(
                        ActionBlock {
                            narration,
                            actions,
                            section: clone_text(&current_section),
                            block_type: BlockType::Action,
                        },
                    );
                    assert(blocks.deep_view() =~= emitted.push(blocks@.last()@));
                    assert(current_actions.deep_view() =~= Seq::empty());
                    assert(current_narration.deep_view() =~= Seq::empty());
                }
                let narration = flush_narration(&mut current_narration);
                let ghost emitted = blocks.deep_view();
                let no_actions: Vec<Directive> = Vec::new();
                assert(no_actions.deep_view() =~= Seq::empty());
                blocks.push(
                    ActionBlock {
                        narration,
                        actions: no_actions,
                        section: clone_text(&current_section),
                        block_type: BlockType::Pause(*timeout),
                    },
                );
                assert(blocks.deep_view() =~= emitted.push(blocks@.last()@));
                assert(current_narration.deep_view() =~= Seq::empty());
            },
            other => {
                let ghost pending = current_actions.deep_view();
                current_actions.push(other.clone());
                assert(current_actions.deep_view() =~= pending.push(other@));
            },
        }
        i += 1;
    }
    assert(directives.take(i as int) =~= directives);

    if current_actions.len() > 0 {
        let narration = flush_narration(&mut current_narration);
        let ghost emitted = blocks.deep_view();
        blocks.push(
            ActionBlock {
                narration,
                actions: current_actions,
                section: clone_text(&current_section),
                block_type: BlockType::Action,
            },
        );
        assert(blocks.deep_view() =~= emitted.push(blocks@.last()@));
    } else if current_narration.len() > 0 {
        let narration = flush_narration(&mut current_narration);
        let ghost emitted = blocks.deep_view();
        let no_actions: Vec<Directive> = Vec::new();
        assert(no_actions.deep_view() =~= Seq::empty());
        blocks.push(
            ActionBlock {
                narration,
                actions: no_actions,
                section: clone_text(&current_section),
                block_type: BlockType::NarrationOnly,
            },
        );
        assert(blocks.deep_view() =~= emitted.push(blocks@.last()@));
    }
    blocks
}

/// Grouping reads the directives and nothing else: two scripts with the same
/// directives in the same order are grouped into the same blocks, whatever
/// their line numbers and front matter.
pub proof fn lemma_grouping_depends_on_directives_only(a: ScriptView, b: ScriptView)
    requires
        a.directives() == b.directives(),
    ensures
        group(a.directives()) == group(b.directives()),
{
}

/// One more directive keeps the grouping state well formed.
pub proof fn lemma_step_well_formed(state: GroupState, directive: DirectiveView)
    requires
        state.well_formed(),
    ensures
        state.step(directive).well_formed(),
{
    let flushed = state.flush_actions();
    assert(flushed.well_formed());
    let next = state.step(directive);
    assert forall|i: int| 0 <= i < next.blocks.len() implies (#[trigger] next.blocks[i]).well_formed() by {
        if i < flushed.blocks.len() {
            assert(next.blocks[i] == flushed.blocks[i]);
        }
    }
    assert forall|i: int| 0 <= i < next.actions.len() implies (#[trigger] next.actions[i]).is_executable() by {
        if i < state.actions.len() {
            assert(next.actions[i] == state.actions[i]);
        }
    }
}

/// Every block that grouping emits is well formed: a `Pause` block and a
/// `NarrationOnly` block carry no actions, an `Action` block carries at least
/// one, and every action carried is executable.
pub proof fn lemma_group_well_formed(directives: Seq<DirectiveView>)
    ensures
        GroupState::after(directives).well_formed(),
        forall|i: int| 0 <= i < group(directives).len() ==> (#[trigger] group(directives)[i]).well_formed(),
    decreases directives.len(),
{
    if directives.len() > 0 {
        lemma_group_well_formed(directives.drop_last());
        lemma_step_well_formed(GroupState::after(directives.drop_last()), directives.last());
    }
    let state = GroupState::after(directives);
    let blocks = group(directives);
    assert forall|i: int| 0 <= i < blocks.len() implies (#[trigger] blocks[i]).well_formed() by {
        if i < state.blocks.len() {
            assert(blocks[i] == state.blocks[i]);
        }
    }
}

/// The executable directives among `directives`, in order.
pub open spec fn executable_of(directives: Seq<DirectiveView>) -> Seq<DirectiveView>
    decreases directives.len(),
{
    if directives.len() == 0 {
        Seq::empty()
    } else if directives.last().is_executable() {
        executable_of(directives.drop_last()).push(directives.last())
    } else {
        executable_of(directives.drop_last())
    }
}

/// The actions of `blocks`, block after block.
pub open spec fn actions_of(blocks: Seq<ActionBlockView>) -> Seq<DirectiveView>
    decreases blocks.len(),
{
    if blocks.len() == 0 {
        Seq::empty()
    } else {
        actions_of(blocks.drop_last()) + blocks.last().actions
    }
}

/// The actions of the blocks emitted so far, followed by the pending
/// actions, are the executable directives read so far, in their order.
pub proof fn lemma_state_keeps_actions(directives: Seq<DirectiveView>)
    ensures
        actions_of(GroupState::after(directives).blocks) + GroupState::after(directives).actions
            == executable_of(directives),
    decreases directives.len(),
{
    if directives.len() == 0 {
        assert(actions_of(Seq::<ActionBlockView>::empty()) + Seq::<DirectiveView>::empty()
            =~= Seq::<DirectiveView>::empty());
    } else {
        lemma_state_keeps_actions(directives.drop_last());
        let before = GroupState::after(directives.drop_last());
        let flushed = before.flush_actions();
        let last = directives.last();
        let next = before.step(last);
        assert(actions_of(flushed.blocks) + flushed.actions =~= actions_of(before.blocks)
            + before.actions) by {
            if before.actions.len() > 0 {
                assert(flushed.blocks.drop_last() =~= before.blocks);
            }
        }
        match last {
            DirectiveView::Say(_) | DirectiveView::Section(_) => {},
            DirectiveView::Pause(_) => {
                assert(next.blocks.drop_last() =~= flushed.blocks);
                assert(actions_of(next.blocks) + next.actions =~= actions_of(flushed.blocks)
                    + flushed.actions);
            },
            _ => {
                assert(actions_of(next.blocks) + next.actions =~= (actions_of(before.blocks)
                    + before.actions).push(last));
            },
        }
    }
}

/// Grouping loses no action, repeats none and reorders none: the actions of
/// the blocks, block after block, are the executable directives of the
/// input in their order.
pub proof fn lemma_group_keeps_actions(directives: Seq<DirectiveView>)
    ensures
        actions_of(group(directives)) == executable_of(directives),
{
    lemma_state_keeps_actions(directives);
    let state = GroupState::after(directives);
    let blocks = group(directives);
    if state.actions.len() > 0 {
        assert(blocks.drop_last() =~= state.blocks);
    } else if state.narration.len() > 0 {
        assert(blocks.drop_last() =~= state.blocks);
        assert(actions_of(blocks) =~= actions_of(state.blocks) + state.actions);
    } else {
        assert(actions_of(blocks) =~= actions_of(state.blocks) + state.actions);
    }
}

} // verus!
