use vstd::prelude::*;
use crate::action::{
    merge_action_views, merge_switch_views, merge_text_views, ActionView,
};
use crate::context::{
    base_line_of, has_line, nav_walk, raw_action_view, side_undispatched, subtext_undispatched,
    Context, NavOutcome,
};
use crate::game::Game;
use crate::plugin::{NoopRuntime, PluginRuntime};
use crate::record::{advanced, RawContextView};
use crate::script::{Line, SubText};
use crate::value::RawValue;

verus! {

/// With no text modules installed, no sub-text tree reaches a plugin.
pub proof fn lemma_undispatched_without_modules(st: SubText)
    ensures
        subtext_undispatched(st, Set::empty()),
    decreases st,
{
    match st {
        SubText::Ch(_) => {},
        SubText::Str(_) => {},
        SubText::Cmd(name, args) => {
            assert forall|i: int| 0 <= i < args@.len() implies subtext_undispatched(
                #[trigger] args@[i],
                Set::empty(),
            ) by {
                assert(decreases_to!(st => st->Cmd_1));
                assert(decreases_to!(args => args@));
                assert(decreases_to!(args@ => args@[i]));
                lemma_undispatched_without_modules(args@[i]);
            }
        },
    }
}

/// Under the plugin-free runtime every rendering is pure: nothing
/// dispatches and the postprocess chain is the identity, so the exact
/// rendering contracts of `Context::get_action` apply to every cursor.
pub proof fn lemma_noop_context_is_pure(
    cx: Context<NoopRuntime>,
    loc: Seq<char>,
    c: RawContextView,
)
    ensures
        cx.pure_at(loc, c),
{
    lemma_side_undispatched_without_modules(cx.game, loc, c);
    lemma_side_undispatched_without_modules(cx.game, cx.game.config.base_lang@, c);
    assert(cx.runtime.text_modules() =~= Set::<Seq<char>>::empty());
}

proof fn lemma_side_undispatched_without_modules(g: Game, loc: Seq<char>, c: RawContextView)
    ensures
        side_undispatched(g, loc, c, Set::empty()),
{
    match crate::context::line_of(g, loc, c) {
        Some(Line::Text(t)) => {
            assert forall|i: int| 0 <= i < t.sub_texts@.len() implies subtext_undispatched(
                #[trigger] t.sub_texts@[i],
                Set::empty(),
            ) by {
                lemma_undispatched_without_modules(t.sub_texts@[i]);
            }
        },
        _ => {},
    }
}

/// Merging an action with itself changes nothing: when the primary and
/// the secondary locale resolve to the same action, the merged action is
/// that action.
pub proof fn lemma_merge_idempotent(v: ActionView)
    ensures
        merge_action_views(Some(v), Some(v)) == Some(v),
{
    match v {
        ActionView::Text(t) => {
            assert(t.vars.union_prefer_right(t.vars) =~= t.vars);
            assert(merge_text_views(t, t) =~~= t);
        },
        ActionView::Switches(s) => {
            assert(merge_switch_views(s, s) =~= s);
        },
        ActionView::Custom(m) => {
            assert(m.union_prefer_right(m) =~= m);
        },
    }
}

/// Advancing never regresses the act index within a paragraph: a step
/// that starts on a renderable unit (the immediate-hit clause of
/// `Context::next_run`) snapshots the very position it started from and
/// leaves the cursor one act further in the same paragraph.
pub proof fn lemma_advance_never_regresses(
    pre: RawContextView,
    snap: RawContextView,
    post: RawContextView,
)
    requires
        snap.base == pre.base,
        snap.para == pre.para,
        snap.act == pre.act,
        post.base == snap.base,
        post.para == snap.para,
        post.act == snap.act + 1,
    ensures
        post.para == pre.para,
        post.act > pre.act,
{
}

/// Stepping back and forward again reproduces the same rendered unit, on
/// a pure-text history: when the popped history entry stands one act past
/// the entry before it and its line is a text line, the cursor the engine
/// re-derives after the pop (one act past the new last entry) is exactly
/// the popped cursor, the navigation walk of the forward step finds its
/// line at once — so by `next_run`'s contract the step succeeds — and the
/// unit renders from the same cursor to the same action in every locale.
pub proof fn lemma_back_then_forward_rerenders(
    g: Game,
    mods: Set<Seq<char>>,
    fuel: nat,
    h: Seq<RawContextView>,
    loc: Seq<char>,
    flags: Seq<bool>,
    vars: Map<Seq<char>, RawValue>,
)
    requires
        h.len() > 1,
        h.last() == advanced(h[h.len() - 2]),
        base_line_of(g, h.last()) matches Some(Line::Text(_)),
    ensures
        advanced(h[h.len() - 2]) == h.last(),
        has_line(g, advanced(h[h.len() - 2])),
        nav_walk(g, mods, advanced(h[h.len() - 2]), fuel) == NavOutcome::Found(h.last()),
        raw_action_view(g, loc, advanced(h[h.len() - 2]), flags, vars) == raw_action_view(
            g,
            loc,
            h.last(),
            flags,
            vars,
        ),
{
}

} // verus!
