use vstd::prelude::*;
use vstd::string::*;
use crate::fallbk::Fallback;
use crate::script::{opt_str_view, VarMap};
use crate::smap::StrMap;
use crate::types::EngineError;
use crate::value::RawValue;

verus! {

/// The whitespace characters recognised when fragments are trimmed.
pub open spec fn is_ws(c: char) -> bool {
    c == ' ' || c == '\t' || c == '\n' || c == '\r'
}

/// A character sequence made of whitespace only (the empty one included).
pub open spec fn blank_str(s: Seq<char>) -> bool {
    forall|i: int| 0 <= i < s.len() ==> is_ws(#[trigger] s[i])
}

fn is_ws_exec(c: char) -> (r: bool)
    ensures
        r == is_ws(c),
{
    c == ' ' || c == '\t' || c == '\n' || c == '\r'
}

/// Whether a string holds whitespace only.
pub fn str_is_blank(s: &str) -> (r: bool)
    ensures
        r == blank_str(s@),
{
    let n = s.unicode_len();
    let mut i: usize = 0;
    while i < n
        invariant
            n == s@.len(),
            0 <= i <= n,
            forall|j: int| 0 <= j < i ==> is_ws(#[trigger] s@[j]),
        decreases n - i,
    {
        if !is_ws_exec(s.get_char(i)) {
            return false;
        }
        i += 1;
    }
    true
}

/// Drops trailing whitespace characters.
pub open spec fn trim_str_back(s: Seq<char>) -> Seq<char>
    decreases s.len(),
{
    if s.len() > 0 && is_ws(s.last()) {
        trim_str_back(s.drop_last())
    } else {
        s
    }
}

/// Drops leading whitespace characters.
pub open spec fn trim_str_front(s: Seq<char>) -> Seq<char>
    decreases s.len(),
{
    if s.len() > 0 && is_ws(s.first()) {
        trim_str_front(s.subrange(1, s.len() as int))
    } else {
        s
    }
}

/// Drops whitespace at both ends.
pub open spec fn trim_str(s: Seq<char>) -> Seq<char> {
    trim_str_front(trim_str_back(s))
}

/// Trims whitespace at both ends of a string.
pub fn trim_string(s: &String) -> (r: String)
    ensures
        r@ == trim_str(s@),
{
    let str = s.as_str();
    let n = str.unicode_len();
    let mut hi: usize = n;
    proof {
        assert(s@.take(n as int) =~= s@);
    }
    while hi > 0 && is_ws_exec(str.get_char(hi - 1))
        invariant
            0 <= hi <= n,
            n == str@.len(),
            str@ == s@,
            trim_str_back(s@) == trim_str_back(s@.take(hi as int)),
        decreases hi,
    {
        proof {
            assert(s@.take(hi as int).last() == s@[hi - 1]);
            assert(s@.take(hi as int).drop_last() =~= s@.take(hi - 1));
        }
        hi -= 1;
    }
    proof {
        if hi > 0 {
            assert(!is_ws(s@.take(hi as int).last()));
        }
        assert(trim_str_back(s@) == s@.take(hi as int));
    }
    let mut lo: usize = 0;
    proof {
        assert(s@.take(hi as int).subrange(0, hi as int) =~= s@.take(hi as int));
    }
    while lo < hi && is_ws_exec(str.get_char(lo))
        invariant
            0 <= lo <= hi <= n,
            n == str@.len(),
            str@ == s@,
            trim_str_back(s@) == s@.take(hi as int),
            trim_str_front(s@.take(hi as int)) == trim_str_front(
                s@.take(hi as int).subrange(lo as int, hi as int),
            ),
        decreases hi - lo,
    {
        proof {
            let cur = s@.take(hi as int).subrange(lo as int, hi as int);
            assert(cur.first() == s@[lo as int]);
            assert(cur.subrange(1, cur.len() as int) =~= s@.take(hi as int).subrange(
                lo + 1,
                hi as int,
            ));
        }
        lo += 1;
    }
    proof {
        let cur = s@.take(hi as int).subrange(lo as int, hi as int);
        if lo < hi {
            assert(cur.first() == s@[lo as int]);
            assert(!is_ws(cur.first()));
        }
        assert(trim_str(s@) == cur);
        assert(cur =~= s@.subrange(lo as int, hi as int));
    }
    let out = str.substring_char(lo, hi);
    out.to_owned()
}

/// One rendered fragment: plain characters, or an opaque block substituted
/// for a resource, variable or plugin result. The view is the pair
/// (is-block, content).
pub enum ActionLine {
    Chars(String),
    Block(String),
}

impl View for ActionLine {
    type V = (bool, Seq<char>);

    open spec fn view(&self) -> (bool, Seq<char>) {
        match self {
            ActionLine::Chars(s) => (false, s@),
            ActionLine::Block(s) => (true, s@),
        }
    }
}

impl ActionLine {
    pub fn content(&self) -> (r: &String)
        ensures
            r@ == self@.1,
    {
        match self {
            ActionLine::Chars(s) => s,
            ActionLine::Block(s) => s,
        }
    }
}

/// The fragment views of a fragment list.
pub open spec fn frags_view(v: Seq<ActionLine>) -> Seq<(bool, Seq<char>)> {
    v.map_values(|a: ActionLine| a@)
}

/// Appending plain characters to a fragment list: they melt into a trailing
/// character fragment when one ends the list, else they open a new one.
pub open spec fn push_chars(t: Seq<(bool, Seq<char>)>, s: Seq<char>) -> Seq<(bool, Seq<char>)> {
    if t.len() > 0 && !t.last().0 {
        t.update(t.len() - 1, (false, t.last().1 + s))
    } else {
        t.push((false, s))
    }
}

/// The flat text of a fragment list.
pub open spec fn flat_text(t: Seq<(bool, Seq<char>)>) -> Seq<char>
    decreases t.len(),
{
    if t.len() == 0 {
        Seq::empty()
    } else {
        flat_text(t.drop_last()) + t.last().1
    }
}

/// The flat text of two fragment lists laid end to end.
pub proof fn lemma_flat_concat(a: Seq<(bool, Seq<char>)>, b: Seq<(bool, Seq<char>)>)
    ensures
        flat_text(a + b) == flat_text(a) + flat_text(b),
    decreases b.len(),
{
    if b.len() == 0 {
        assert(a + b =~= a);
        assert(flat_text(a) + flat_text(b) =~= flat_text(a));
    } else {
        lemma_flat_concat(a, b.drop_last());
        assert((a + b).drop_last() =~= a + b.drop_last());
        assert((a + b).last() == b.last());
        assert((flat_text(a) + flat_text(b.drop_last())) + b.last().1 =~= flat_text(a) + (flat_text(
            b.drop_last(),
        ) + b.last().1));
    }
}

/// A fragment holding whitespace only.
pub open spec fn blank_frag(f: (bool, Seq<char>)) -> bool {
    blank_str(f.1)
}

/// Drops trailing whitespace-only fragments.
pub open spec fn trim_frags_back(t: Seq<(bool, Seq<char>)>) -> Seq<(bool, Seq<char>)>
    decreases t.len(),
{
    if t.len() > 0 && blank_frag(t.last()) {
        trim_frags_back(t.drop_last())
    } else {
        t
    }
}

/// Drops leading whitespace-only fragments.
pub open spec fn trim_frags_front(t: Seq<(bool, Seq<char>)>) -> Seq<(bool, Seq<char>)>
    decreases t.len(),
{
    if t.len() > 0 && blank_frag(t.first()) {
        trim_frags_front(t.subrange(1, t.len() as int))
    } else {
        t
    }
}

/// Drops whitespace-only fragments at both ends.
pub open spec fn trim_frags(t: Seq<(bool, Seq<char>)>) -> Seq<(bool, Seq<char>)> {
    trim_frags_front(trim_frags_back(t))
}

/// A trimmed fragment list does not end in a whitespace-only fragment.
proof fn lemma_trim_back_last(t: Seq<(bool, Seq<char>)>)
    ensures
        trim_frags_back(t).len() > 0 ==> !blank_frag(trim_frags_back(t).last()),
    decreases t.len(),
{
    if t.len() > 0 && blank_frag(t.last()) {
        lemma_trim_back_last(t.drop_last());
    }
}

/// A trimmed fragment list does not begin with a whitespace-only fragment.
proof fn lemma_trim_front_first(t: Seq<(bool, Seq<char>)>)
    ensures
        trim_frags_front(t).len() > 0 ==> !blank_frag(trim_frags_front(t).first()),
    decreases t.len(),
{
    if t.len() > 0 && blank_frag(t.first()) {
        lemma_trim_front_first(t.subrange(1, t.len() as int));
    }
}

/// Dropping leading blanks keeps the last fragment, when it is not blank.
proof fn lemma_trim_front_keeps_last(t: Seq<(bool, Seq<char>)>)
    requires
        t.len() > 0,
        !blank_frag(t.last()),
    ensures
        trim_frags_front(t).len() > 0,
        trim_frags_front(t).last() == t.last(),
    decreases t.len(),
{
    if blank_frag(t.first()) {
        let rest = t.subrange(1, t.len() as int);
        assert(rest.last() == t.last());
        lemma_trim_front_keeps_last(rest);
    }
}

/// Trimming both ends is idempotent: a trimmed list trims to itself.
pub proof fn lemma_trim_frags_idempotent(t: Seq<(bool, Seq<char>)>)
    ensures
        trim_frags(trim_frags(t)) == trim_frags(t),
{
    let b = trim_frags_back(t);
    let f = trim_frags_front(b);
    lemma_trim_back_last(t);
    if b.len() > 0 {
        lemma_trim_front_keeps_last(b);
        assert(!blank_frag(f.last()));
        assert(trim_frags_back(f) == f);
    } else {
        assert(f.len() == 0);
        assert(trim_frags_back(f) == f);
    }
    lemma_trim_front_first(b);
    if f.len() > 0 {
        assert(!blank_frag(f.first()));
        assert(trim_frags_front(f) == f);
    } else {
        assert(trim_frags_front(f) == f);
    }
}

/// The abstract value of a rendered text action.
#[verifier::ext_equal]
pub struct ActionTextView {
    pub text: Seq<(bool, Seq<char>)>,
    pub ch_key: Option<Seq<char>>,
    pub character: Option<Seq<char>>,
    pub vars: Map<Seq<char>, RawValue>,
}

/// A rendered text unit: fragments, an optional character key and resolved
/// character name, and the side-channel variables the unit produced.
pub struct ActionText {
    pub text: Vec<ActionLine>,
    pub ch_key: Option<String>,
    pub character: Option<String>,
    pub vars: VarMap,
}

impl View for ActionText {
    type V = ActionTextView;

    open spec fn view(&self) -> ActionTextView {
        ActionTextView {
            text: frags_view(self.text@),
            ch_key: opt_str_view(self.ch_key),
            character: opt_str_view(self.character),
            vars: self.vars@,
        }
    }
}

impl ActionText {
    pub open spec fn wf(&self) -> bool {
        self.vars.wf()
    }

    pub fn new() -> (r: Self)
        ensures
            r.wf(),
            r@ == (ActionTextView {
                text: Seq::empty(),
                ch_key: None,
                character: None,
                vars: Map::empty(),
            }),
    {
        let r = ActionText {
            text: Vec::new(),
            ch_key: None,
            character: None,
            vars: StrMap::new(),
        };
        proof {
            assert(r@.text =~= Seq::<(bool, Seq<char>)>::empty());
        }
        r
    }

    /// Appends literal characters, melting into a trailing character
    /// fragment when there is one.
    pub fn push_back_chars(&mut self, s: String)
        ensures
            final(self)@ == (ActionTextView { text: push_chars(old(self)@.text, s@), ..old(self)@ }),
            final(self).wf() == old(self).wf(),
            final(self).vars == old(self).vars,
            final(self).ch_key == old(self).ch_key,
            final(self).character == old(self).character,
    {
        let ghost prev = self.text@;
        let last = self.text.pop();
        match last {
            Some(ActionLine::Chars(mut c)) => {
                c.append(s.as_str());
                self.text.push(ActionLine::Chars(c));
                proof {
                    assert(frags_view(self.text@) =~= push_chars(frags_view(prev), s@));
                }
            },
            Some(other) => {
                self.text.push(other);
                proof {
                    assert(self.text@ =~= prev);
                }
                self.text.push(ActionLine::Chars(s));
                proof {
                    assert(frags_view(self.text@) =~= push_chars(frags_view(prev), s@));
                }
            },
            None => {
                self.text.push(ActionLine::Chars(s));
                proof {
                    assert(frags_view(self.text@) =~= push_chars(frags_view(prev), s@));
                }
            },
        }
    }

    /// Appends an opaque block fragment.
    pub fn push_back_block(&mut self, s: String)
        ensures
            final(self)@ == (ActionTextView {
                text: old(self)@.text.push((true, s@)),
                ..old(self)@
            }),
            final(self).wf() == old(self).wf(),
            final(self).vars == old(self).vars,
            final(self).ch_key == old(self).ch_key,
            final(self).character == old(self).character,
    {
        self.text.push(ActionLine::Block(s));
        proof {
            assert(frags_view(self.text@) =~= old(self)@.text.push((true, s@)));
        }
    }

    /// Moves another unit's fragments onto the end of this one's.
    pub fn append_frags(&mut self, other: &mut ActionText)
        ensures
            final(self)@ == (ActionTextView {
                text: old(self)@.text + old(other)@.text,
                ..old(self)@
            }),
            final(self).wf() == old(self).wf(),
            final(self).vars == old(self).vars,
            final(other)@ == (ActionTextView { text: Seq::empty(), ..old(other)@ }),
            final(other).wf() == old(other).wf(),
            final(other).vars == old(other).vars,
    {
        self.text.append(&mut other.text);
        proof {
            assert(frags_view(self.text@) =~= old(self)@.text + old(other)@.text);
            assert(frags_view(other.text@) =~= Seq::<(bool, Seq<char>)>::empty());
        }
    }

    /// The flat text of the unit: all fragment contents, in order.
    pub fn full_text(&self) -> (r: String)
        ensures
            r@ == flat_text(self@.text),
    {
        let n = self.text.len();
        let mut r = String::new();
        let mut i: usize = 0;
        while i < n
            invariant
                n == self.text@.len(),
                0 <= i <= n,
                r@ == flat_text(frags_view(self.text@).take(i as int)),
            decreases n - i,
        {
            r.append(self.text[i].content().as_str());
            proof {
                let fv = frags_view(self.text@);
                assert(fv.take(i + 1).drop_last() =~= fv.take(i as int));
                assert(fv.take(i + 1).last() == fv[i as int]);
            }
            i += 1;
        }
        proof {
            assert(frags_view(self.text@).take(n as int) =~= frags_view(self.text@));
        }
        r
    }

    /// Drops the whitespace-only fragments at both ends.
    pub fn trim_space_frags(&mut self)
        ensures
            final(self)@ == (ActionTextView { text: trim_frags(old(self)@.text), ..old(self)@ }),
            final(self).wf() == old(self).wf(),
            final(self).vars == old(self).vars,
    {
        loop
            invariant
                trim_frags_back(frags_view(self.text@)) == trim_frags_back(old(self)@.text),
                self.vars == old(self).vars,
                self.ch_key == old(self).ch_key,
                self.character == old(self).character,
            ensures
                frags_view(self.text@) == trim_frags_back(old(self)@.text),
                self.vars == old(self).vars,
                self.ch_key == old(self).ch_key,
                self.character == old(self).character,
            decreases self.text@.len(),
        {
            let len = self.text.len();
            if len == 0 {
                break ;
            }
            if !str_is_blank(self.text[len - 1].content().as_str()) {
                break ;
            }
            let ghost prev = frags_view(self.text@);
            let _ = self.text.pop();
            proof {
                assert(frags_view(self.text@) =~= prev.drop_last());
            }
        }
        loop
            invariant
                trim_frags_front(frags_view(self.text@)) == trim_frags_front(
                    trim_frags_back(old(self)@.text),
                ),
                self.vars == old(self).vars,
                self.ch_key == old(self).ch_key,
                self.character == old(self).character,
            ensures
                frags_view(self.text@) == trim_frags(old(self)@.text),
                self.vars == old(self).vars,
                self.ch_key == old(self).ch_key,
                self.character == old(self).character,
            decreases self.text@.len(),
        {
            let len = self.text.len();
            if len == 0 {
                break ;
            }
            if !str_is_blank(self.text[0].content().as_str()) {
                break ;
            }
            let ghost prev = frags_view(self.text@);
            let _ = self.text.remove(0);
            proof {
                assert(frags_view(self.text@) =~= prev.subrange(1, prev.len() as int));
            }
        }
    }
}

/// One offered option of a switch line.
#[derive(Debug, PartialEq, Eq)]
pub struct Switch {
    pub text: String,
    pub enabled: bool,
}

impl View for Switch {
    type V = (Seq<char>, bool);

    open spec fn view(&self) -> (Seq<char>, bool) {
        (self.text@, self.enabled)
    }
}

/// The views of a switch list.
pub open spec fn switches_view(v: Seq<Switch>) -> Seq<(Seq<char>, bool)> {
    v.map_values(|s: Switch| s@)
}

/// The abstract value of a rendered unit.
#[verifier::ext_equal]
pub enum ActionView {
    Text(ActionTextView),
    Switches(Seq<(Seq<char>, bool)>),
    Custom(Map<Seq<char>, RawValue>),
}

/// A rendered unit, the only value handed to the presentation side: a text
/// unit, a menu of switches, or the variables of a custom line.
pub enum Action {
    Text(ActionText),
    Switches(Vec<Switch>),
    Custom(VarMap),
}

impl View for Action {
    type V = ActionView;

    open spec fn view(&self) -> ActionView {
        match self {
            Action::Text(t) => ActionView::Text(t@),
            Action::Switches(s) => ActionView::Switches(switches_view(s@)),
            Action::Custom(m) => ActionView::Custom(m@),
        }
    }
}

impl Action {
    pub open spec fn wf(&self) -> bool {
        match self {
            Action::Text(t) => t.wf(),
            Action::Switches(_) => true,
            Action::Custom(m) => m.wf(),
        }
    }
}

/// The empty default action: a text unit with nothing in it.
pub open spec fn default_action_view() -> ActionView {
    ActionView::Text(
        ActionTextView { text: Seq::empty(), ch_key: None, character: None, vars: Map::empty() },
    )
}

impl Default for Action {
    fn default() -> (r: Self)
        ensures
            r@ == default_action_view(),
            r.wf(),
    {
        Action::Text(ActionText::new())
    }
}

/// The merge of two text views: the primary's fragments when it has any,
/// else the secondary's; character key and name from the primary when
/// present; the variable maps unioned with primary precedence.
pub open spec fn merge_text_views(p: ActionTextView, s: ActionTextView) -> ActionTextView {
    ActionTextView {
        text: if p.text.len() > 0 {
            p.text
        } else {
            s.text
        },
        ch_key: if p.ch_key is Some {
            p.ch_key
        } else {
            s.ch_key
        },
        character: if p.character is Some {
            p.character
        } else {
            s.character
        },
        vars: s.vars.union_prefer_right(p.vars),
    }
}

/// The merge of two switch lists: labels from the primary, enabled flags
/// from the secondary as far as it reaches.
pub open spec fn merge_switch_views(
    p: Seq<(Seq<char>, bool)>,
    s: Seq<(Seq<char>, bool)>,
) -> Seq<(Seq<char>, bool)> {
    Seq::new(
        p.len(),
        |i: int|
            (
                p[i].0,
                if i < s.len() {
                    s[i].1
                } else {
                    p[i].1
                },
            ),
    )
}

/// The merge of the two locales' actions: an absent side yields the other
/// as-is, both absent yield the empty default, and matching variants merge
/// per variant; mismatching variants are a fatal error (`None` here).
pub open spec fn merge_action_views(p: Option<ActionView>, s: Option<ActionView>) -> Option<
    ActionView,
> {
    match (p, s) {
        (Option::None, Option::None) => Some(default_action_view()),
        (Option::Some(a), Option::None) => Some(a),
        (Option::None, Option::Some(a)) => Some(a),
        (Option::Some(a), Option::Some(b)) => match (a, b) {
            (ActionView::Text(x), ActionView::Text(y)) => Some(
                ActionView::Text(merge_text_views(x, y)),
            ),
            (ActionView::Switches(x), ActionView::Switches(y)) => Some(
                ActionView::Switches(merge_switch_views(x, y)),
            ),
            (ActionView::Custom(x), ActionView::Custom(y)) => Some(
                ActionView::Custom(y.union_prefer_right(x)),
            ),
            _ => None,
        },
    }
}

/// The view of an optional action.
pub open spec fn opt_action_view(o: Option<Action>) -> Option<ActionView> {
    match o {
        Some(a) => Some(a@),
        None => None,
    }
}

/// Merges the primary and secondary renderings of one unit.
pub fn merge_action(f: Fallback<Action>) -> (r: Result<Action, EngineError>)
    requires
        (match f.primary {
            Some(a) => a.wf(),
            None => true,
        }),
        (match f.secondary {
            Some(a) => a.wf(),
            None => true,
        }),
    ensures
        (match r {
            Ok(a) => a.wf() && Some(a@) == merge_action_views(
                opt_action_view(f.primary),
                opt_action_view(f.secondary),
            ),
            Err(e) => merge_action_views(
                opt_action_view(f.primary),
                opt_action_view(f.secondary),
            ) is None && e == EngineError::MismatchedActionType,
        }),
{
    let (p, s) = f.unzip();
    match (p, s) {
        (None, None) => Ok(Action::default()),
        (Some(a), None) => Ok(a),
        (None, Some(a)) => Ok(a),
        (Some(a), Some(b)) => match (a, b) {
            (Action::Text(x), Action::Text(y)) => {
                let ghost xv = x@;
                let ghost yv = y@;
                let text = if x.text.len() > 0 {
                    x.text
                } else {
                    y.text
                };
                let ch_key = if x.ch_key.is_some() {
                    x.ch_key
                } else {
                    y.ch_key
                };
                let character = if x.character.is_some() {
                    x.character
                } else {
                    y.character
                };
                let mut vars = y.vars;
                vars.extend_from(x.vars);
                let merged = ActionText { text, ch_key, character, vars };
                proof {
                    assert(merged@ =~= merge_text_views(xv, yv));
                }
                Ok(Action::Text(merged))
            },
            (Action::Switches(x), Action::Switches(y)) => {
                let ghost xv = switches_view(x@);
                let ghost yv = switches_view(y@);
                let mut out: Vec<Switch> = Vec::new();
                let n = x.len();
                let m = y.len();
                let mut i: usize = 0;
                while i < n
                    invariant
                        n == x@.len(),
                        m == y@.len(),
                        0 <= i <= n,
                        xv == switches_view(x@),
                        yv == switches_view(y@),
                        out@.len() == i,
                        forall|j: int|
                            0 <= j < i ==> (#[trigger] out@[j])@ == merge_switch_views(xv, yv)[j],
                    decreases n - i,
                {
                    let enabled = if i < m {
                        y[i].enabled
                    } else {
                        x[i].enabled
                    };
                    out.push(Switch { text: x[i].text.clone(), enabled });
                    i += 1;
                }
                proof {
                    assert(switches_view(out@) =~= merge_switch_views(xv, yv));
                }
                Ok(Action::Switches(out))
            },
            (Action::Custom(x), Action::Custom(y)) => {
                let mut m = y;
                m.extend_from(x);
                Ok(Action::Custom(m))
            },
            _ => Err(EngineError::MismatchedActionType),
        },
    }
}

} // verus!
