//! When a theme counts as applied: the slots that the page must have found.
use vstd::prelude::*;

use crate::channel::{csp_bypass_command, csp_bypass_tree, evaluate_command, evaluate_tree};
use crate::error::CodexError;
use crate::json::{json_parsed, reads_as};
use crate::text::{
    chars_of, copy_texts, join_texts, joined, same_text, slice_chars, string_views,
    text_begins_with, text_of,
};

verus! {

/// Slots that every view has.
pub const REQUIRED_GLOBAL_STARTUP_SLOTS: [&'static str; 4] = [
    "app.shell",
    "titlebar",
    "sidebar",
    "main",
];

/// Slots of the composer, which every view has too.
pub const REQUIRED_COMPOSER_STARTUP_SLOTS: [&'static str; 4] = [
    "composer",
    "composer.editor",
    "composer.submit",
    "composer.submit.icon",
];

/// Slots of the home view.
pub const REQUIRED_HOME_STARTUP_SLOTS: [&'static str; 15] = [
    "home.hero",
    "home.hero.viewport",
    "home.hero.copy",
    "home.hero.media",
    "home.hero.divider",
    "home.content.region",
    "home.stage",
    "home.prompt",
    "home.prompt.title",
    "home.cards",
    "home.cards.layout",
    "home.cards.grid",
    "home.card",
    "home.card.icon",
    "home.card.label",
];

/// Slots of the compact home view.
pub const REQUIRED_COMPACT_HOME_STARTUP_SLOTS: [&'static str; 2] = [
    "home.layout",
    "composer.region",
];

/// Slots of the conversation view.
pub const REQUIRED_CONVERSATION_STARTUP_SLOTS: [&'static str; 3] = [
    "conversation.stage",
    "conversation.viewport",
    "conversation",
];

/// What is missing where no known view was found.
pub const REQUIRED_STARTUP_VIEW: &'static str = "view:home|home-compact|conversation";

/// The views of some texts.
pub open spec fn str_views(texts: Seq<&str>) -> Seq<Seq<char>> {
    texts.map_values(|text: &str| text@)
}

/// The slots that every view must have, those of the composer among them.
pub open spec fn common_slots() -> Seq<Seq<char>> {
    str_views(REQUIRED_GLOBAL_STARTUP_SLOTS@) + str_views(REQUIRED_COMPOSER_STARTUP_SLOTS@)
}

/// The view that the first slot to name one names.
pub open spec fn slot_view(slots: Seq<Seq<char>>) -> Option<Seq<char>>
    decreases slots.len(),
{
    if slots.len() == 0 {
        None
    } else if "view:"@.is_prefix_of(slots[0]) {
        Some(slots[0].skip("view:"@.len() as int))
    } else {
        slot_view(slots.drop_first())
    }
}

/// The slots that a view must have.
pub open spec fn view_slots(view: Option<Seq<char>>) -> Option<Seq<Seq<char>>> {
    if view == Some("home"@) {
        Some(str_views(REQUIRED_HOME_STARTUP_SLOTS@))
    } else if view == Some("home-compact"@) {
        Some(str_views(REQUIRED_COMPACT_HOME_STARTUP_SLOTS@))
    } else if view == Some("conversation"@) {
        Some(str_views(REQUIRED_CONVERSATION_STARTUP_SLOTS@))
    } else {
        None
    }
}

/// The required slots that are not among the found ones, in order.
pub open spec fn not_found(required: Seq<Seq<char>>, slots: Seq<Seq<char>>) -> Seq<Seq<char>>
    decreases required.len(),
{
    if required.len() == 0 {
        Seq::empty()
    } else if slots.contains(required[0]) {
        not_found(required.drop_first(), slots)
    } else {
        seq![required[0]] + not_found(required.drop_first(), slots)
    }
}

/// The slots that are missing among the found ones.
pub open spec fn missing_slots(slots: Seq<Seq<char>>) -> Seq<Seq<char>> {
    match view_slots(slot_view(slots)) {
        Some(own) => not_found(common_slots() + own, slots),
        None => seq![REQUIRED_STARTUP_VIEW@],
    }
}

fn push_slots(slots: &mut Vec<&'static str>, more: &[&'static str])
    ensures
        str_views(final(slots)@) == str_views(old(slots)@) + str_views(more@),
{
    let ghost before = slots@;
    let mut i: usize = 0;
    while i < more.len()
        invariant
            i <= more@.len(),
            slots@ == before + more@.take(i as int),
        decreases more@.len() - i,
    {
        slots.push(more[i]);
        i += 1;
        assert(slots@ =~= before + more@.take(i as int));
    }
    assert(more@.take(i as int) =~= more@);
    assert(str_views(slots@) =~= str_views(before) + str_views(more@));
}

fn required_slots(view: &str) -> (result: Option<Vec<&'static str>>)
    ensures
        match result {
            Some(slots) => view_slots(Some(view@)) is Some && str_views(slots@) == common_slots()
                + view_slots(Some(view@))->0,
            None => view_slots(Some(view@)) is None,
        },
{
    let mut slots: Vec<&'static str> = Vec::new();
    push_slots(&mut slots, &REQUIRED_GLOBAL_STARTUP_SLOTS);
    push_slots(&mut slots, &REQUIRED_COMPOSER_STARTUP_SLOTS);
    assert(str_views(slots@) =~= common_slots());
    if same_text(view, "home") {
        push_slots(&mut slots, &REQUIRED_HOME_STARTUP_SLOTS);
    } else if same_text(view, "home-compact") {
        push_slots(&mut slots, &REQUIRED_COMPACT_HOME_STARTUP_SLOTS);
    } else if same_text(view, "conversation") {
        push_slots(&mut slots, &REQUIRED_CONVERSATION_STARTUP_SLOTS);
    } else {
        return None;
    }
    Some(slots)
}

fn find_view(slots: &[String]) -> (result: Option<String>)
    ensures
        match result {
            Some(view) => slot_view(string_views(slots@)) == Some(view@),
            None => slot_view(string_views(slots@)) is None,
        },
{
    let ghost all = string_views(slots@);
    let mut i: usize = 0;
    assert(all.skip(0) =~= all);
    while i < slots.len()
        invariant
            i <= slots@.len(),
            all == string_views(slots@),
            slot_view(all) == slot_view(all.skip(i as int)),
        decreases slots@.len() - i,
    {
        assert(all.skip(i as int)[0] == slots@[i as int]@);
        if text_begins_with(slots[i].as_str(), "view:") {
            let chars = chars_of(slots[i].as_str());
            let size: usize = chars_of("view:").len();
            let view = text_of(slice_chars(chars.as_slice(), size, chars.len()).as_slice());
            assert(view@ =~= slots@[i as int]@.skip("view:"@.len() as int));
            return Some(view);
        }
        assert(all.skip(i as int).drop_first() =~= all.skip(i + 1));
        i += 1;
    }
    None
}

fn has_slot(slots: &[String], slot: &str) -> (result: bool)
    ensures
        result == string_views(slots@).contains(slot@),
{
    let ghost all = string_views(slots@);
    let mut i: usize = 0;
    while i < slots.len()
        invariant
            i <= slots@.len(),
            all == string_views(slots@),
            forall|j: int| 0 <= j < i ==> #[trigger] all[j] != slot@,
        decreases slots@.len() - i,
    {
        assert(all[i as int] == slots@[i as int]@);
        if same_text(slots[i].as_str(), slot) {
            return true;
        }
        i += 1;
    }
    false
}

/// The slots that are missing among the found ones.
pub fn missing_startup_slots(slots: &[String]) -> (result: Vec<&'static str>)
    ensures
        str_views(result@) == missing_slots(string_views(slots@)),
{
    let required = match find_view(slots) {
        Some(view) => required_slots(view.as_str()),
        None => None,
    };
    let required = match required {
        Some(required) => required,
        None => {
            let missing: Vec<&'static str> = vec![REQUIRED_STARTUP_VIEW];
            assert(str_views(missing@) =~= seq![REQUIRED_STARTUP_VIEW@]);
            return missing;
        },
    };
    let ghost all = str_views(required@);
    let ghost found = string_views(slots@);
    let mut missing: Vec<&'static str> = Vec::new();
    let mut i: usize = 0;
    proof {
        assert(all.skip(0) =~= all);
        assert(str_views(missing@) + not_found(all, found) =~= not_found(all, found));
    }
    while i < required.len()
        invariant
            i <= required@.len(),
            all == str_views(required@),
            found == string_views(slots@),
            str_views(missing@) + not_found(all.skip(i as int), found) == not_found(all, found),
        decreases required@.len() - i,
    {
        let ghost rest = all.skip(i as int);
        let ghost before = str_views(missing@);
        assert(rest[0] == required@[i as int]@);
        assert(rest.drop_first() =~= all.skip(i + 1));
        if !has_slot(slots, required[i]) {
            missing.push(required[i]);
            assert(str_views(missing@) =~= before.push(required@[i as int]@));
            assert(str_views(missing@) + not_found(all.skip(i + 1), found) =~= before + not_found(
                rest,
                found,
            ));
        }
        i += 1;
    }
    assert(all.skip(i as int) =~= Seq::<Seq<char>>::empty());
    assert(str_views(missing@) =~= not_found(all, found));
    missing
}

/// Whether the found slots are enough.
pub fn startup_slots_ready(slots: &[String]) -> (result: bool)
    ensures
        result == (missing_slots(string_views(slots@)).len() == 0),
{
    let missing = missing_startup_slots(slots);
    assert(str_views(missing@).len() == missing@.len());
    missing.len() == 0
}

proof fn lemma_nothing_missing(required: Seq<Seq<char>>, slots: Seq<Seq<char>>)
    ensures
        not_found(required, slots).len() == 0 <==> forall|i: int|
            0 <= i < required.len() ==> slots.contains(#[trigger] required[i]),
    decreases required.len(),
{
    if required.len() > 0 {
        let rest = required.drop_first();
        lemma_nothing_missing(rest, slots);
        if slots.contains(required[0]) && not_found(rest, slots).len() == 0 {
            assert forall|i: int| 0 <= i < required.len() implies slots.contains(
                #[trigger] required[i],
            ) by {
                if i > 0 {
                    assert(rest[i - 1] == required[i]);
                }
            }
        }
        if forall|i: int| 0 <= i < required.len() ==> slots.contains(#[trigger] required[i]) {
            assert(slots.contains(required[0]));
            assert forall|i: int| 0 <= i < rest.len() implies slots.contains(
                #[trigger] rest[i],
            ) by {
                assert(rest[i] == required[i + 1]);
            }
        }
    }
}

/// Nothing is missing exactly where the found slots name a known view and hold all slots that
/// every view has and all that this view has; no other slot matters.
pub proof fn startup_is_ready_when_the_core_is_found(slots: Seq<Seq<char>>)
    ensures
        missing_slots(slots).len() == 0 <==> match view_slots(slot_view(slots)) {
            Some(own) => forall|i: int|
                0 <= i < (common_slots() + own).len() ==> slots.contains(
                    #[trigger] (common_slots() + own)[i],
                ),
            None => false,
        },
{
    if let Some(own) = view_slots(slot_view(slots)) {
        lemma_nothing_missing(common_slots() + own, slots);
    }
}

proof fn lemma_view_stays(slots: Seq<Seq<char>>, more: Seq<Seq<char>>)
    requires
        slot_view(slots) is Some,
    ensures
        slot_view(slots + more) == slot_view(slots),
    decreases slots.len(),
{
    assert((slots + more)[0] == slots[0]);
    if !"view:"@.is_prefix_of(slots[0]) {
        assert((slots + more).drop_first() =~= slots.drop_first() + more);
        lemma_view_stays(slots.drop_first(), more);
    }
}

/// Slots that are found besides do not make a finished startup unfinished.
pub proof fn more_slots_keep_startup_ready(slots: Seq<Seq<char>>, more: Seq<Seq<char>>)
    requires
        missing_slots(slots).len() == 0,
    ensures
        missing_slots(slots + more).len() == 0,
{
    lemma_view_stays(slots, more);
    let own = view_slots(slot_view(slots))->0;
    let required = common_slots() + own;
    lemma_nothing_missing(required, slots);
    assert forall|i: int| 0 <= i < required.len() implies (slots + more).contains(
        #[trigger] required[i],
    ) by {
        let at = choose|at: int| 0 <= at < slots.len() && slots[at] == required[i];
        assert((slots + more)[at] == required[i]);
    }
    lemma_nothing_missing(required, slots + more);
}

/// How far the application of a theme has come.
#[derive(Debug)]
pub struct ApplyProgress {
    /// The number of the command that evaluates the expression next.
    pub command_id: u64,
    /// The slots that were found last.
    pub last_slots: Vec<String>,
}

/// What an evaluation of the expression that applies a theme comes to.
#[derive(Debug)]
pub enum ApplyStep {
    /// The theme is applied, with these slots.
    Applied(Vec<String>),
    /// The expression is to be evaluated again.
    TryAgain,
    Failed(CodexError),
}

impl ApplyProgress {
    /// The start of an application. The first command has put the page in a state to load the
    /// assets of the theme.
    pub fn new() -> (result: ApplyProgress)
        ensures
            result.command_id == 2,
            string_views(result.last_slots@) == Seq::<Seq<char>>::empty(),
    {
        let result = ApplyProgress { command_id: 2, last_slots: Vec::new() };
        assert(string_views(result.last_slots@) =~= Seq::<Seq<char>>::empty());
        result
    }

    /// The command with which an application begins, before the expression is evaluated for the
    /// first time: the first command on the channel lets the page load the assets of the theme.
    pub fn opening_command() -> (result: String)
        ensures
            reads_as(result@, csp_bypass_tree(1, true)),
    {
        csp_bypass_command(1, true)
    }

    /// The command that evaluates the expression next.
    pub fn next_command(&self, expression: &str) -> (result: String)
        ensures
            reads_as(result@, evaluate_tree(self.command_id, expression@)),
    {
        evaluate_command(self.command_id, expression)
    }

    /// Takes in the slots that an evaluation has found, if it gave any. The theme is applied once
    /// nothing is missing; until then the evaluation is repeated up to the deadline.
    pub fn advance(&mut self, slots: Option<Vec<String>>, deadline_passed: bool) -> (result:
        ApplyStep)
        requires
            old(self).command_id < u64::MAX,
        ensures
            string_views(final(self).last_slots@) == match slots {
                Some(slots) => string_views(slots@),
                None => string_views(old(self).last_slots@),
            },
            match result {
                ApplyStep::Applied(applied) => {
                    &&& slots is Some
                    &&& string_views(applied@) == string_views(slots->0@)
                    &&& missing_slots(string_views(applied@)).len() == 0
                    &&& final(self).command_id == old(self).command_id
                },
                ApplyStep::TryAgain => {
                    &&& slots matches Some(slots) ==> missing_slots(string_views(slots@)).len() > 0
                    &&& !deadline_passed
                    &&& final(self).command_id == old(self).command_id + 1
                },
                ApplyStep::Failed(error) => {
                    &&& slots matches Some(slots) ==> missing_slots(string_views(slots@)).len() > 0
                    &&& deadline_passed
                    &&& error@ == "等待 ChatGPT 主题界面就绪超时，缺少核心区域："@ + joined(
                        missing_slots(string_views(final(self).last_slots@)),
                        ", "@,
                    )
                    &&& final(self).command_id == old(self).command_id
                },
            },
    {
        if let Some(slots) = slots {
            self.last_slots = copy_texts(slots.as_slice());
            if startup_slots_ready(slots.as_slice()) {
                return ApplyStep::Applied(slots);
            }
        }
        if deadline_passed {
            let missing = owned_texts(missing_startup_slots(self.last_slots.as_slice()));
            return ApplyStep::Failed(
                CodexError::detailed(
                    "等待 ChatGPT 主题界面就绪超时，缺少核心区域：",
                    join_texts(missing.as_slice(), ", ").as_str(),
                ),
            );
        }
        self.command_id = self.command_id + 1;
        ApplyStep::TryAgain
    }
}

fn owned_texts(texts: Vec<&'static str>) -> (result: Vec<String>)
    ensures
        string_views(result@) == str_views(texts@),
{
    let mut copies: Vec<String> = Vec::new();
    let mut i: usize = 0;
    while i < texts.len()
        invariant
            i <= texts@.len(),
            copies@.len() == i,
            forall|j: int| 0 <= j < i ==> (#[trigger] copies@[j])@ == texts@[j]@,
        decreases texts@.len() - i,
    {
        copies.push(texts[i].to_owned());
        i += 1;
    }
    assert(string_views(copies@) =~= str_views(texts@));
    copies
}

proof fn lemma_not_found(required: Seq<Seq<char>>, slots: Seq<Seq<char>>)
    ensures
        not_found(required, slots) == required.filter(|slot: Seq<char>| !slots.contains(slot)),
    decreases required.len(),
{
    let open = |slot: Seq<char>| !slots.contains(slot);
    reveal(Seq::filter);
    if required.len() > 0 {
        let first = seq![required[0]];
        let rest = required.drop_first();
        lemma_not_found(rest, slots);
        assert(required =~= first + rest);
        Seq::filter_distributes_over_add(first, rest, open);
        assert(first.drop_last() =~= Seq::empty());
        assert(Seq::<Seq<char>>::empty().filter(open) =~= Seq::empty());
        assert(first.filter(open) =~= if slots.contains(required[0]) {
            Seq::empty()
        } else {
            first
        });
        assert(not_found(required, slots) =~= required.filter(open));
    }
}

proof fn lemma_first_view(slots: Seq<Seq<char>>, at: int)
    requires
        0 <= at < slots.len(),
        "view:"@.is_prefix_of(slots[at]),
        forall|before: int| 0 <= before < at ==> !"view:"@.is_prefix_of(#[trigger] slots[before]),
    ensures
        slot_view(slots) == Some(slots[at].skip("view:"@.len() as int)),
    decreases at,
{
    if at > 0 {
        assert(!"view:"@.is_prefix_of(slots[0]));
        let rest = slots.drop_first();
        assert forall|before: int| 0 <= before < at - 1 implies !"view:"@.is_prefix_of(
            #[trigger] rest[before],
        ) by {
            assert(rest[before] == slots[before + 1]);
        }
        lemma_first_view(rest, at - 1);
    }
}

proof fn lemma_no_view(slots: Seq<Seq<char>>)
    requires
        forall|i: int| 0 <= i < slots.len() ==> !"view:"@.is_prefix_of(#[trigger] slots[i]),
    ensures
        slot_view(slots) is None,
    decreases slots.len(),
{
    if slots.len() > 0 {
        let rest = slots.drop_first();
        assert forall|i: int| 0 <= i < rest.len() implies !"view:"@.is_prefix_of(
            #[trigger] rest[i],
        ) by {
            assert(rest[i] == slots[i + 1]);
        }
        lemma_no_view(rest);
    }
}

/// Whether the slot at an index is the first one to name a view, and names it.
pub open spec fn view_is_found(slots: Seq<Seq<char>>, at: int, view: Seq<char>) -> bool {
    &&& 0 <= at < slots.len()
    &&& slots[at] == "view:"@ + view
    &&& forall|before: int| 0 <= before < at ==> !"view:"@.is_prefix_of(#[trigger] slots[before])
}

proof fn lemma_found_view(slots: Seq<Seq<char>>, at: int, view: Seq<char>)
    requires
        view_is_found(slots, at, view),
    ensures
        slot_view(slots) == Some(view),
{
    assert("view:"@ =~= slots[at].subrange(0, "view:"@.len() as int));
    lemma_first_view(slots, at);
    assert(slots[at].skip("view:"@.len() as int) =~= view);
}

proof fn lemma_common_slots()
    ensures
        common_slots() == seq![
            "app.shell"@,
            "titlebar"@,
            "sidebar"@,
            "main"@,
            "composer"@,
            "composer.editor"@,
            "composer.submit"@,
            "composer.submit.icon"@,
        ],
{
    assert(common_slots() =~= seq![
        "app.shell"@,
        "titlebar"@,
        "sidebar"@,
        "main"@,
        "composer"@,
        "composer.editor"@,
        "composer.submit"@,
        "composer.submit.icon"@,
    ]);
}

/// Where the page shows the home view, the missing slots are exactly those that every view
/// has, that the composer has or that this view has and that were not found, in that order; and the
/// startup is ready exactly where each of them was found.
pub proof fn home_view_needs_its_slots(
    slots: &[String],
    at: int,
    missing: Vec<&'static str>,
    ready: bool,
)
    requires
        call_ensures(missing_startup_slots, (slots,), missing),
        call_ensures(startup_slots_ready, (slots,), ready),
        view_is_found(string_views(slots@), at, "home"@),
    ensures
        ({
            let needed = seq![
                "app.shell"@,
                "titlebar"@,
                "sidebar"@,
                "main"@,
                "composer"@,
                "composer.editor"@,
                "composer.submit"@,
                "composer.submit.icon"@,
                "home.hero"@,
                "home.hero.viewport"@,
                "home.hero.copy"@,
                "home.hero.media"@,
                "home.hero.divider"@,
                "home.content.region"@,
                "home.stage"@,
                "home.prompt"@,
                "home.prompt.title"@,
                "home.cards"@,
                "home.cards.layout"@,
                "home.cards.grid"@,
                "home.card"@,
                "home.card.icon"@,
                "home.card.label"@,
            ];
            let found = string_views(slots@);
            &&& str_views(missing@) == needed.filter(|slot: Seq<char>| !found.contains(slot))
            &&& ready <==> forall|i: int|
                0 <= i < needed.len() ==> found.contains(#[trigger] needed[i])
        }),
{
    let found = string_views(slots@);
    lemma_found_view(found, at, "home"@);
    reveal_strlit("home");
    reveal_strlit("home-compact");
    reveal_strlit("conversation");
    let own = str_views(REQUIRED_HOME_STARTUP_SLOTS@);
    lemma_common_slots();
    assert(own =~= seq![
        "home.hero"@,
        "home.hero.viewport"@,
        "home.hero.copy"@,
        "home.hero.media"@,
        "home.hero.divider"@,
        "home.content.region"@,
        "home.stage"@,
        "home.prompt"@,
        "home.prompt.title"@,
        "home.cards"@,
        "home.cards.layout"@,
        "home.cards.grid"@,
        "home.card"@,
        "home.card.icon"@,
        "home.card.label"@,
    ]);
    let needed = seq![
        "app.shell"@,
        "titlebar"@,
        "sidebar"@,
        "main"@,
        "composer"@,
        "composer.editor"@,
        "composer.submit"@,
        "composer.submit.icon"@,
        "home.hero"@,
        "home.hero.viewport"@,
        "home.hero.copy"@,
        "home.hero.media"@,
        "home.hero.divider"@,
        "home.content.region"@,
        "home.stage"@,
        "home.prompt"@,
        "home.prompt.title"@,
        "home.cards"@,
        "home.cards.layout"@,
        "home.cards.grid"@,
        "home.card"@,
        "home.card.icon"@,
        "home.card.label"@,
    ];
    assert(common_slots() + own =~= needed);
    lemma_not_found(needed, found);
    lemma_nothing_missing(needed, found);
}

/// Where the page shows the compact home view, the missing slots are exactly those that every view
/// has, that the composer has or that this view has and that were not found, in that order; and the
/// startup is ready exactly where each of them was found.
pub proof fn compact_home_view_needs_its_slots(
    slots: &[String],
    at: int,
    missing: Vec<&'static str>,
    ready: bool,
)
    requires
        call_ensures(missing_startup_slots, (slots,), missing),
        call_ensures(startup_slots_ready, (slots,), ready),
        view_is_found(string_views(slots@), at, "home-compact"@),
    ensures
        ({
            let needed = seq![
                "app.shell"@,
                "titlebar"@,
                "sidebar"@,
                "main"@,
                "composer"@,
                "composer.editor"@,
                "composer.submit"@,
                "composer.submit.icon"@,
                "home.layout"@,
                "composer.region"@,
            ];
            let found = string_views(slots@);
            &&& str_views(missing@) == needed.filter(|slot: Seq<char>| !found.contains(slot))
            &&& ready <==> forall|i: int|
                0 <= i < needed.len() ==> found.contains(#[trigger] needed[i])
        }),
{
    let found = string_views(slots@);
    lemma_found_view(found, at, "home-compact"@);
    reveal_strlit("home");
    reveal_strlit("home-compact");
    reveal_strlit("conversation");
    let own = str_views(REQUIRED_COMPACT_HOME_STARTUP_SLOTS@);
    lemma_common_slots();
    assert(own =~= seq![
        "home.layout"@,
        "composer.region"@,
    ]);
    let needed = seq![
        "app.shell"@,
        "titlebar"@,
        "sidebar"@,
        "main"@,
        "composer"@,
        "composer.editor"@,
        "composer.submit"@,
        "composer.submit.icon"@,
        "home.layout"@,
        "composer.region"@,
    ];
    assert(common_slots() + own =~= needed);
    lemma_not_found(needed, found);
    lemma_nothing_missing(needed, found);
}

/// Where the page shows the conversation view, the missing slots are exactly those that every view
/// has, that the composer has or that this view has and that were not found, in that order; and the
/// startup is ready exactly where each of them was found.
pub proof fn conversation_view_needs_its_slots(
    slots: &[String],
    at: int,
    missing: Vec<&'static str>,
    ready: bool,
)
    requires
        call_ensures(missing_startup_slots, (slots,), missing),
        call_ensures(startup_slots_ready, (slots,), ready),
        view_is_found(string_views(slots@), at, "conversation"@),
    ensures
        ({
            let needed = seq![
                "app.shell"@,
                "titlebar"@,
                "sidebar"@,
                "main"@,
                "composer"@,
                "composer.editor"@,
                "composer.submit"@,
                "composer.submit.icon"@,
                "conversation.stage"@,
                "conversation.viewport"@,
                "conversation"@,
            ];
            let found = string_views(slots@);
            &&& str_views(missing@) == needed.filter(|slot: Seq<char>| !found.contains(slot))
            &&& ready <==> forall|i: int|
                0 <= i < needed.len() ==> found.contains(#[trigger] needed[i])
        }),
{
    let found = string_views(slots@);
    lemma_found_view(found, at, "conversation"@);
    reveal_strlit("home");
    reveal_strlit("home-compact");
    reveal_strlit("conversation");
    assert("home-compact"@[0] != "conversation"@[0]);
    let own = str_views(REQUIRED_CONVERSATION_STARTUP_SLOTS@);
    lemma_common_slots();
    assert(own =~= seq![
        "conversation.stage"@,
        "conversation.viewport"@,
        "conversation"@,
    ]);
    let needed = seq![
        "app.shell"@,
        "titlebar"@,
        "sidebar"@,
        "main"@,
        "composer"@,
        "composer.editor"@,
        "composer.submit"@,
        "composer.submit.icon"@,
        "conversation.stage"@,
        "conversation.viewport"@,
        "conversation"@,
    ];
    assert(common_slots() + own =~= needed);
    lemma_not_found(needed, found);
    lemma_nothing_missing(needed, found);
}

/// Where the first slot to name a view names an unknown one, or none names any, that is all that is
/// missing, and the startup is not ready.
pub proof fn startup_needs_a_known_view(
    slots: &[String],
    missing: Vec<&'static str>,
    ready: bool,
)
    requires
        call_ensures(missing_startup_slots, (slots,), missing),
        call_ensures(startup_slots_ready, (slots,), ready),
        (forall|i: int|
            0 <= i < slots@.len() ==> !"view:"@.is_prefix_of(#[trigger] string_views(slots@)[i]))
            || (exists|at: int, view: Seq<char>| #[trigger]
            view_is_found(string_views(slots@), at, view) && view != "home"@ && view
                != "home-compact"@ && view != "conversation"@),
    ensures
        str_views(missing@) == seq!["view:home|home-compact|conversation"@],
        !ready,
{
    let found = string_views(slots@);
    if forall|i: int| 0 <= i < slots@.len() ==> !"view:"@.is_prefix_of(#[trigger] found[i]) {
        lemma_no_view(found);
    } else {
        let (at, view) = choose|at: int, view: Seq<char>| #[trigger]
            view_is_found(found, at, view) && view != "home"@ && view != "home-compact"@ && view
                != "conversation"@;
        lemma_found_view(found, at, view);
    }
}

/// A theme is applied as soon as an evaluation has found slots with which the startup is ready, and
/// with those; until then it is tried again, with the next number, and once the deadline has passed
/// it fails and names what is missing among the slots that were found last.
pub proof fn application_goes_on_until_ready(
    progress: &mut ApplyProgress,
    slots: Vec<String>,
    last: &[String],
    deadline_passed: bool,
    step: ApplyStep,
    ready: bool,
    missing: Vec<&'static str>,
)
    requires
        old(progress).command_id < u64::MAX,
        call_ensures(ApplyProgress::advance, (progress, Some(slots), deadline_passed), step),
        last@ == slots@,
        call_ensures(startup_slots_ready, (last,), ready),
        call_ensures(missing_startup_slots, (last,), missing),
    ensures
        string_views(final(progress).last_slots@) == string_views(slots@),
        ready <==> step is Applied,
        step matches ApplyStep::Applied(applied) ==> string_views(applied@) == string_views(slots@)
            && final(progress).command_id == old(progress).command_id,
        !ready && !deadline_passed <==> step is TryAgain,
        step is TryAgain ==> final(progress).command_id == old(progress).command_id + 1,
        !ready && deadline_passed <==> step is Failed,
        step matches ApplyStep::Failed(error) ==> error@
            == "等待 ChatGPT 主题界面就绪超时，缺少核心区域："@ + joined(str_views(missing@), ", "@),
{
}

/// An evaluation that has found no slots at all leaves those that were found last as they are, and
/// fails only once the deadline has passed.
pub proof fn application_outlasts_an_empty_evaluation(
    progress: &mut ApplyProgress,
    last: &[String],
    deadline_passed: bool,
    step: ApplyStep,
    missing: Vec<&'static str>,
)
    requires
        old(progress).command_id < u64::MAX,
        call_ensures(
            ApplyProgress::advance,
            (progress, None::<Vec<String>>, deadline_passed),
            step,
        ),
        last@ == old(progress).last_slots@,
        call_ensures(missing_startup_slots, (last,), missing),
    ensures
        string_views(final(progress).last_slots@) == string_views(old(progress).last_slots@),
        deadline_passed <==> step is Failed,
        !deadline_passed <==> step is TryAgain,
        !deadline_passed ==> final(progress).command_id == old(progress).command_id + 1,
        step matches ApplyStep::Failed(error) ==> error@
            == "等待 ChatGPT 主题界面就绪超时，缺少核心区域："@ + joined(str_views(missing@), ", "@),
{
}

/// A theme is applied in this order: the first command lets the page load what its policy does not
/// name, and the second one, and each one behind it, evaluates the expression.
pub proof fn application_opens_the_page_first(
    progress: ApplyProgress,
    expression: &str,
    fresh: ApplyProgress,
    opening: String,
    opening_twin: String,
    command: String,
    command_twin: String,
)
    requires
        call_ensures(ApplyProgress::new, (), fresh),
        call_ensures(ApplyProgress::opening_command, (), opening),
        call_ensures(csp_bypass_command, (1, true), opening_twin),
        call_ensures(ApplyProgress::next_command, (&progress, expression), command),
        call_ensures(evaluate_command, (progress.command_id, expression), command_twin),
    ensures
        fresh.command_id == 2,
        string_views(fresh.last_slots@).len() == 0,
        json_parsed(opening@) == json_parsed(opening_twin@),
        json_parsed(command@) == json_parsed(command_twin@),
{
}

} // verus!
