use vstd::prelude::*;
use vstd::string::*;
use crate::action::{
    default_action_view, flat_text, frags_view, lemma_trim_frags_idempotent, merge_action,
    merge_action_views, opt_action_view, trim_frags, trim_str, trim_string, Action, ActionText,
    ActionTextView, ActionView, Switch, switches_view,
};
use crate::fallbk::Fallback;
use crate::game::{find_para_spec, find_res_spec, Game};
use crate::plugin::{LineProcessResult, PluginRuntime};
use crate::record::{RawContext, RawContextView};
use crate::script::{
    opt_str_view, res_cmd, str_eq_lit, var_cmd, Line, Paragraph, SubText, Text, VarMap,
};
use crate::smap::StrMap;
use crate::types::{EngineError, FrontendType, Locale};
use crate::value::{dec_nat, str_of, truthy, usize_to_dec, RawValue};

verus! {

/// A milestone of the plugin loader.
#[derive(Debug, PartialEq, Eq)]
pub enum LoadStatus {
    CreateEngine,
    LoadPlugin(String, usize, usize),
}

/// A milestone reported while a session opens, in order.
#[derive(Debug, PartialEq, Eq)]
pub enum OpenStatus {
    LoadProfile,
    CreateRuntime,
    LoadPlugin(String, usize, usize),
    GamePlugin,
    LoadResource,
    LoadParagraph,
}

/// The open-session milestone a loader milestone maps to.
pub open spec fn open_status_of(l: LoadStatus) -> OpenStatus {
    match l {
        LoadStatus::CreateEngine => OpenStatus::CreateRuntime,
        LoadStatus::LoadPlugin(name, i, len) => OpenStatus::LoadPlugin(name, i, len),
    }
}

impl From<LoadStatus> for OpenStatus {
    fn from(value: LoadStatus) -> (r: Self)
        ensures
            r == open_status_of(value),
    {
        match value {
            LoadStatus::CreateEngine => OpenStatus::CreateRuntime,
            LoadStatus::LoadPlugin(name, i, len) => OpenStatus::LoadPlugin(name, i, len),
        }
    }
}

impl vstd::std_specs::convert::FromSpecImpl<LoadStatus> for OpenStatus {
    open spec fn obeys_from_spec() -> bool {
        true
    }

    open spec fn from_spec(l: LoadStatus) -> OpenStatus {
        open_status_of(l)
    }
}

/// Navigation gives up after this many silent steps without producing a
/// unit; a story graph that loops without progress is treated as ended.
pub const NAV_FUEL: u64 = 1000000;

/// The view of the locale an interpretation runs under, if any.
pub open spec fn opt_loc_view(o: Option<&Locale>) -> Option<Seq<char>> {
    match o {
        Some(l) => Some(l@),
        None => None,
    }
}

/// Holds when interpreting the sub-text tree reaches no plugin: every
/// command is built in, or no text module carries its name.
pub open spec fn subtext_undispatched(st: SubText, mods: Set<Seq<char>>) -> bool
    decreases st,
{
    match st {
        SubText::Ch(_) => true,
        SubText::Str(_) => true,
        SubText::Cmd(name, args) => (name@ == res_cmd() || name@ == var_cmd() || !mods.contains(
            name@,
        )) && forall|i: int|
            0 <= i < args@.len() ==> subtext_undispatched(#[trigger] args@[i], mods),
    }
}

/// Holds when no node of a sub-text list reaches a plugin.
pub open spec fn subtexts_undispatched(s: Seq<SubText>, mods: Set<Seq<char>>) -> bool {
    forall|i: int| 0 <= i < s.len() ==> subtext_undispatched(#[trigger] s[i], mods)
}

/// The fragments one sub-text node renders to, when nothing dispatches: a
/// literal appends itself, `res` and `var` append the looked-up value as a
/// block or nothing when the key is missing, anything else appends nothing.
pub open spec fn frags_of(
    st: SubText,
    g: Game,
    loc: Option<Seq<char>>,
    locals: Map<Seq<char>, RawValue>,
) -> Seq<(bool, Seq<char>)>
    decreases st,
{
    match st {
        SubText::Ch(c) => seq![(false, seq![c])],
        SubText::Str(s) => seq![(false, s@)],
        SubText::Cmd(name, args) => {
            if name@ == res_cmd() {
                match loc {
                    Some(l) => {
                        if args@.len() == 0 {
                            Seq::empty()
                        } else {
                            let key = flat_text(frags_of(args@[0], g, loc, locals));
                            match find_res_spec(g, l, key) {
                                Some(v) => seq![(true, str_of(v))],
                                None => Seq::empty(),
                            }
                        }
                    },
                    None => Seq::empty(),
                }
            } else if name@ == var_cmd() {
                if args@.len() == 0 {
                    Seq::empty()
                } else {
                    let key = flat_text(frags_of(args@[0], g, loc, locals));
                    if locals.contains_key(key) {
                        seq![(true, str_of(locals[key]))]
                    } else {
                        Seq::empty()
                    }
                }
            } else {
                Seq::empty()
            }
        },
    }
}

/// The fragments a sub-text list renders to, node results laid end to end.
pub open spec fn cat_frags(
    s: Seq<SubText>,
    g: Game,
    loc: Option<Seq<char>>,
    locals: Map<Seq<char>, RawValue>,
) -> Seq<(bool, Seq<char>)>
    decreases s.len(),
{
    if s.len() == 0 {
        Seq::empty()
    } else {
        cat_frags(s.drop_last(), g, loc, locals) + frags_of(s.last(), g, loc, locals)
    }
}

/// The resource key that resolves a character tag to a display name.
pub open spec fn ch_res_key(tag: Option<Seq<char>>) -> Seq<char> {
    seq!['c', 'h', '_'] + (match tag {
        Some(t) => t,
        None => Seq::empty(),
    })
}

/// The text view a text line interprets to when nothing dispatches.
pub open spec fn parse_text_spec(
    g: Game,
    loc: Seq<char>,
    t: Text,
    locals: Map<Seq<char>, RawValue>,
) -> ActionTextView {
    ActionTextView {
        text: cat_frags(t.sub_texts@, g, Some(loc), locals),
        ch_key: opt_str_view(t.ch_tag),
        character: (match t.ch_alias {
            Some(a) => Some(a@),
            None => match find_res_spec(g, loc, ch_res_key(opt_str_view(t.ch_tag))) {
                Some(v) => Some(str_of(v)),
                None => None,
            },
        }),
        vars: Map::empty(),
    }
}

/// Whether a pending switch option is enabled: absent means enabled, a
/// unit value means enabled, anything else coerces to its truth value.
pub open spec fn switch_enabled_spec(locals: Map<Seq<char>, RawValue>, i: int) -> bool {
    let key = dec_nat(i as nat);
    if locals.contains_key(key) {
        locals[key] is Unit || truthy(locals[key])
    } else {
        true
    }
}

/// Labels zipped with enabled flags, to the shorter of the two.
pub open spec fn switch_zip(ls: Seq<String>, flags: Seq<bool>) -> Seq<(Seq<char>, bool)> {
    Seq::new(
        if ls.len() <= flags.len() {
            ls.len()
        } else {
            flags.len()
        },
        |i: int| (ls[i]@, flags[i]),
    )
}

/// The line a cursor points at in one locale's table.
pub open spec fn line_of(g: Game, loc: Seq<char>, c: RawContextView) -> Option<Line> {
    match find_para_spec(g, loc, c.base, c.para) {
        Some(p) => if 0 <= c.act < p.texts@.len() {
            Some(p.texts@[c.act])
        } else {
            None
        },
        None => None,
    }
}

/// The line a cursor points at in the base locale, which drives control
/// flow.
pub open spec fn base_line_of(g: Game, c: RawContextView) -> Option<Line> {
    line_of(g, g.config.base_lang@, c)
}

/// Whether the base locale has a unit to render at the cursor.
pub open spec fn has_line(g: Game, c: RawContextView) -> bool {
    base_line_of(g, c) is Some
}

/// What the resolution loop is bound to reach from a cursor.
pub enum NavOutcome {
    /// A renderable unit stands at this cursor.
    Found(RawContextView),
    /// The story has ended: a top-level paragraph miss.
    End,
    /// No prediction: a plugin decides a next-paragraph id on the way,
    /// or the walk's step budget ran out.
    Unknown,
}

/// The next-paragraph id an exhausted paragraph hands the loop: the
/// trimmed flat evaluation of its next-expression when that reaches no
/// plugin, the empty id when it has none, and no prediction otherwise.
pub open spec fn next_id_spec(
    g: Game,
    p: Paragraph,
    locals: Map<Seq<char>, RawValue>,
    mods: Set<Seq<char>>,
) -> Option<Seq<char>> {
    match p.next {
        Some(t) => if subtexts_undispatched(t.sub_texts@, mods) {
            Some(trim_str(flat_text(cat_frags(t.sub_texts@, g, None, locals))))
        } else {
            None
        },
        None => Some(Seq::empty()),
    }
}

/// The navigation walk, in spec: a cursor with a line is found as it is;
/// an exhausted paragraph follows its next-expression with the act index
/// reset to zero; a missing paragraph climbs one inclusion level, or ends
/// the story at top level. The fuel mirrors the loop's step budget.
pub open spec fn nav_walk(
    g: Game,
    mods: Set<Seq<char>>,
    c: RawContextView,
    fuel: nat,
) -> NavOutcome
    decreases fuel,
{
    if has_line(g, c) {
        NavOutcome::Found(c)
    } else if fuel == 0 {
        NavOutcome::Unknown
    } else {
        match find_para_spec(g, g.config.base_lang@, c.base, c.para) {
            Some(p) => match next_id_spec(g, p, c.locals, mods) {
                Some(id) => nav_walk(
                    g,
                    mods,
                    RawContextView { para: id, act: 0, ..c },
                    (fuel - 1) as nat,
                ),
                None => NavOutcome::Unknown,
            },
            None => if c.base == c.para {
                NavOutcome::End
            } else {
                nav_walk(g, mods, RawContextView { base: c.para, ..c }, (fuel - 1) as nat)
            },
        }
    }
}

/// A found cursor has a line, and the walk never touches the locals.
pub proof fn lemma_nav_walk_found(g: Game, mods: Set<Seq<char>>, c: RawContextView, fuel: nat)
    ensures
        (match nav_walk(g, mods, c, fuel) {
            NavOutcome::Found(d) => has_line(g, d) && d.locals == c.locals,
            _ => true,
        }),
    decreases fuel,
{
    if has_line(g, c) {
    } else if fuel == 0 {
    } else {
        match find_para_spec(g, g.config.base_lang@, c.base, c.para) {
            Some(p) => match next_id_spec(g, p, c.locals, mods) {
                Some(id) => {
                    lemma_nav_walk_found(
                        g,
                        mods,
                        RawContextView { para: id, act: 0, ..c },
                        (fuel - 1) as nat,
                    );
                },
                None => {},
            },
            None => {
                if c.base != c.para {
                    lemma_nav_walk_found(
                        g,
                        mods,
                        RawContextView { base: c.para, ..c },
                        (fuel - 1) as nat,
                    );
                }
            },
        }
    }
}

/// The one-locale rendering of the unit at a cursor, before any merge:
/// `None` when the locale has no paragraph, no line, or an empty line
/// there.
pub open spec fn raw_action_view(
    g: Game,
    loc: Seq<char>,
    c: RawContextView,
    flags: Seq<bool>,
    vars: Map<Seq<char>, RawValue>,
) -> Option<ActionView> {
    match line_of(g, loc, c) {
        Some(Line::Text(t)) => Some(ActionView::Text(parse_text_spec(g, loc, t, c.locals))),
        Some(Line::Switch(labels)) => Some(ActionView::Switches(switch_zip(labels@, flags))),
        Some(Line::Custom(_)) => Some(ActionView::Custom(vars)),
        Some(Line::Empty) => None,
        None => None,
    }
}

/// The rendered action after the final trimming pass.
pub open spec fn final_action_view(av: ActionView) -> ActionView {
    match av {
        ActionView::Text(t) => ActionView::Text(
            ActionTextView { text: trim_frags(t.text), ..t },
        ),
        other => other,
    }
}

/// Holds when rendering the unit at a cursor in one locale reaches no
/// plugin.
pub open spec fn side_undispatched(
    g: Game,
    loc: Seq<char>,
    c: RawContextView,
    mods: Set<Seq<char>>,
) -> bool {
    match line_of(g, loc, c) {
        Some(Line::Text(t)) => subtexts_undispatched(t.sub_texts@, mods),
        _ => true,
    }
}

/// The effect one processed line asks for, carried out of the borrow of
/// the story tables.
enum StepEffect {
    Nothing,
    SetSwitches(Vec<bool>),
    ClearVars,
    Apply(LineProcessResult),
    Fail(EngineError),
}

/// The game running context: the static story model, the plugin runtime,
/// the cursor, and the pending switch flags and custom-line variables.
pub struct Context<R: PluginRuntime> {
    pub game: Game,
    pub frontend: FrontendType,
    pub runtime: R,
    pub ctx: RawContext,
    pub switches: Vec<bool>,
    pub vars: VarMap,
}

impl<R: PluginRuntime> Context<R> {
    pub open spec fn wf(&self) -> bool {
        &&& self.game.wf()
        &&& self.ctx.wf()
        &&& self.vars.wf()
    }

    pub fn new(game: Game, frontend: FrontendType, runtime: R) -> (r: Self)
        requires
            game.wf(),
        ensures
            r.wf(),
            r.game == game,
            r.frontend == frontend,
            r.runtime == runtime,
            r.ctx@.locals == Map::<Seq<char>, RawValue>::empty(),
            r.switches@ == Seq::<bool>::empty(),
    {
        Context {
            game,
            frontend,
            runtime,
            ctx: RawContext::new(),
            switches: Vec::new(),
            vars: StrMap::new(),
        }
    }

    /// Installs a cursor, for a resume or a new game.
    pub fn set_context(&mut self, ctx: RawContext)
        requires
            old(self).wf(),
            ctx.wf(),
        ensures
            final(self).wf(),
            final(self).ctx == ctx,
            final(self).game == old(self).game,
            final(self).runtime == old(self).runtime,
            final(self).frontend == old(self).frontend,
            final(self).switches == old(self).switches,
            final(self).vars == old(self).vars,
    {
        self.ctx = ctx;
    }

    /// Installs the cursor a new game starts from.
    pub fn set_start_context(&mut self)
        requires
            old(self).wf(),
        ensures
            final(self).wf(),
            final(self).ctx@ == (RawContextView {
                base: old(self).game.config.start@,
                para: old(self).game.config.start@,
                act: 0,
                locals: Map::empty(),
            }),
            final(self).game == old(self).game,
            final(self).runtime == old(self).runtime,
            final(self).frontend == old(self).frontend,
            final(self).switches == old(self).switches,
            final(self).vars == old(self).vars,
    {
        let start = self.game.start_context();
        self.set_context(start);
    }

    /// The inner story model.
    pub fn game(&self) -> (r: &Game)
        ensures
            r == &self.game,
    {
        &self.game
    }

    /// Interprets one sub-text node. When nothing in it dispatches to a
    /// plugin, the result is exactly the built-in interpretation.
    pub fn parse_sub_text(&self, st: &SubText, loc: Option<&Locale>, locals: &VarMap) -> (r:
        Result<ActionText, EngineError>)
        requires
            self.wf(),
            locals.wf(),
        ensures
            (match r {
                Ok(a) => a.wf(),
                Err(_) => true,
            }),
            subtext_undispatched(*st, self.runtime.text_modules()) ==> (match r {
                Ok(a) => a@.text == frags_of(*st, self.game, opt_loc_view(loc), locals@)
                    && a@.vars == Map::<Seq<char>, RawValue>::empty() && a.ch_key is None
                    && a.character is None,
                Err(_) => false,
            }),
        decreases *st,
    {
        let ghost mods = self.runtime.text_modules();
        let ghost lv = opt_loc_view(loc);
        let mut action = ActionText::new();
        match st {
            SubText::Ch(c) => {
                action.push_back_chars(crate::value::char_to_string(*c));
                proof {
                    assert(action@.text =~= frags_of(*st, self.game, lv, locals@));
                }
                Ok(action)
            },
            SubText::Str(s) => {
                action.push_back_chars(s.clone());
                proof {
                    assert(action@.text =~= frags_of(*st, self.game, lv, locals@));
                }
                Ok(action)
            },
            SubText::Cmd(name, args) => {
                let n = args.len();
                let mut arg_strings: Vec<String> = Vec::new();
                let mut i: usize = 0;
                while i < n
                    invariant
                        self.wf(),
                        locals.wf(),
                        n == args@.len(),
                        0 <= i <= n,
                        *st == SubText::Cmd(*name, *args),
                        mods == self.runtime.text_modules(),
                        lv == opt_loc_view(loc),
                        arg_strings@.len() == i,
                        subtext_undispatched(*st, mods) ==> forall|j: int|
                            0 <= j < i ==> (#[trigger] arg_strings@[j])@ == flat_text(
                                frags_of(args@[j], self.game, lv, locals@),
                            ),
                    decreases n - i,
                {
                    proof {
                        assert(*args == st->Cmd_1);
                        assert(decreases_to!(*st => st->Cmd_1));
                        assert(decreases_to!(*args => args@));
                        assert(decreases_to!(args@ => args@[i as int]));
                    }
                    let sub = match self.parse_sub_text(&args[i], loc, locals) {
                        Ok(a) => a,
                        Err(e) => {
                            proof {
                                if subtext_undispatched(*st, mods) {
                                    assert(subtext_undispatched(args@[i as int], mods));
                                }
                            }
                            return Err(e);
                        },
                    };
                    let flat = sub.full_text();
                    arg_strings.push(flat);
                    proof {
                        if subtext_undispatched(*st, mods) {
                            assert(subtext_undispatched(args@[i as int], mods));
                        }
                    }
                    i += 1;
                }
                if str_eq_lit(name, "res") {
                    proof {
                        reveal_strlit("res");
                        assert("res"@ =~= res_cmd());
                    }
                    if let Some(l) = loc {
                        if arg_strings.len() > 0 {
                            match self.game.find_res(l, &arg_strings[0]) {
                                Some(v) => {
                                    let sv = v.get_str();
                                    action.push_back_block(sv);
                                    proof {
                                        assert(action@.text =~= seq![(true, str_of(*v))]);
                                    }
                                },
                                None => {},
                            }
                        }
                    }
                    Ok(action)
                } else if str_eq_lit(name, "var") {
                    proof {
                        reveal_strlit("var");
                        assert("var"@ =~= var_cmd());
                    }
                    if arg_strings.len() > 0 {
                        match locals.get(&arg_strings[0]) {
                            Some(v) => {
                                let sv = v.get_str();
                                action.push_back_block(sv);
                                proof {
                                    assert(action@.text =~= seq![(true, str_of(*v))]);
                                }
                            },
                            None => {},
                        }
                    }
                    Ok(action)
                } else {
                    proof {
                        reveal_strlit("res");
                        reveal_strlit("var");
                        assert("res"@ =~= res_cmd());
                        assert("var"@ =~= var_cmd());
                    }
                    match self.runtime.dispatch_text(
                        name,
                        &arg_strings,
                        &self.game.config.props,
                        self.frontend,
                    ) {
                        None => {
                            proof {
                                assert(action@.text =~= frags_of(*st, self.game, lv, locals@));
                            }
                            Ok(action)
                        },
                        Some(Ok(mut res)) => {
                            action.append_frags(&mut res.text);
                            action.vars.extend_from(res.text.vars);
                            Ok(action)
                        },
                        Some(Err(e)) => Err(e),
                    }
                }
            },
        }
    }

    /// Interprets a text line in one locale: resolves the character name
    /// through the alias or the `ch_` resource, and renders the sub-texts.
    pub fn parse_text(&self, loc: &Locale, t: &Text, ctx: &RawContext) -> (r: Result<
        ActionText,
        EngineError,
    >)
        requires
            self.wf(),
            ctx.wf(),
        ensures
            (match r {
                Ok(a) => a.wf() && a@.vars == Map::<Seq<char>, RawValue>::empty(),
                Err(_) => true,
            }),
            subtexts_undispatched(t.sub_texts@, self.runtime.text_modules()) ==> (match r {
                Ok(a) => a@ == parse_text_spec(self.game, loc@, *t, ctx@.locals),
                Err(_) => false,
            }),
    {
        let ghost mods = self.runtime.text_modules();
        let mut action = ActionText::new();
        action.ch_key = match &t.ch_tag {
            Some(s) => Some(s.clone()),
            None => None,
        };
        action.character = match &t.ch_alias {
            Some(a) => Some(a.clone()),
            None => {
                let mut key = "ch_".to_owned();
                proof {
                    reveal_strlit("ch_");
                    assert("ch_"@ =~= seq!['c', 'h', '_']);
                }
                match &t.ch_tag {
                    Some(tag) => key.append(tag.as_str()),
                    None => {},
                }
                proof {
                    assert(key@ == ch_res_key(opt_str_view(t.ch_tag)));
                }
                match self.game.find_res(loc, &key) {
                    Some(v) => Some(v.get_str()),
                    None => None,
                }
            },
        };
        let n = t.sub_texts.len();
        let mut i: usize = 0;
        while i < n
            invariant
                self.wf(),
                ctx.wf(),
                n == t.sub_texts@.len(),
                0 <= i <= n,
                mods == self.runtime.text_modules(),
                action.wf(),
                action@.vars == Map::<Seq<char>, RawValue>::empty(),
                action@.ch_key == parse_text_spec(self.game, loc@, *t, ctx@.locals).ch_key,
                action@.character == parse_text_spec(self.game, loc@, *t, ctx@.locals).character,
                subtexts_undispatched(t.sub_texts@, mods) ==> action@.text == cat_frags(
                    t.sub_texts@.take(i as int),
                    self.game,
                    Some(loc@),
                    ctx@.locals,
                ),
            decreases n - i,
        {
            let mut sub = match self.parse_sub_text(&t.sub_texts[i], Some(loc), &ctx.locals) {
                Ok(a) => a,
                Err(e) => {
                    proof {
                        if subtexts_undispatched(t.sub_texts@, mods) {
                            assert(subtext_undispatched(t.sub_texts@[i as int], mods));
                        }
                    }
                    return Err(e);
                },
            };
            action.append_frags(&mut sub);
            proof {
                if subtexts_undispatched(t.sub_texts@, mods) {
                    assert(subtext_undispatched(t.sub_texts@[i as int], mods));
                    let s = t.sub_texts@;
                    assert(s.take(i + 1).drop_last() =~= s.take(i as int));
                    assert(s.take(i + 1).last() == s[i as int]);
                }
            }
            i += 1;
        }
        proof {
            assert(t.sub_texts@.take(n as int) =~= t.sub_texts@);
        }
        Ok(action)
    }

    /// Zips offered switch labels with the pending enabled flags.
    pub fn parse_switches(&self, labels: &Vec<String>) -> (r: Vec<Switch>)
        ensures
            switches_view(r@) == switch_zip(labels@, self.switches@),
    {
        let n = if labels.len() <= self.switches.len() {
            labels.len()
        } else {
            self.switches.len()
        };
        let mut out: Vec<Switch> = Vec::new();
        let mut i: usize = 0;
        while i < n
            invariant
                n == switch_zip(labels@, self.switches@).len(),
                n <= labels@.len(),
                n <= self.switches@.len(),
                0 <= i <= n,
                out@.len() == i,
                forall|j: int|
                    0 <= j < i ==> (#[trigger] out@[j])@ == switch_zip(labels@, self.switches@)[j],
            decreases n - i,
        {
            out.push(Switch { text: labels[i].clone(), enabled: self.switches[i] });
            i += 1;
        }
        proof {
            assert(switches_view(out@) =~= switch_zip(labels@, self.switches@));
        }
        out
    }

    /// Evaluates a text expression outside any locale: resources resolve to
    /// nothing, variables resolve against the cursor's locals, and the flat
    /// result is trimmed. This is how `next_expr` yields a paragraph id.
    pub fn call(&self, t: &Text) -> (r: Result<String, EngineError>)
        requires
            self.wf(),
        ensures
            subtexts_undispatched(t.sub_texts@, self.runtime.text_modules()) ==> (match r {
                Ok(s) => s@ == trim_str(
                    flat_text(cat_frags(t.sub_texts@, self.game, None, self.ctx@.locals)),
                ),
                Err(_) => false,
            }),
    {
        let ghost mods = self.runtime.text_modules();
        let n = t.sub_texts.len();
        let mut out = String::new();
        let mut i: usize = 0;
        while i < n
            invariant
                self.wf(),
                n == t.sub_texts@.len(),
                0 <= i <= n,
                mods == self.runtime.text_modules(),
                subtexts_undispatched(t.sub_texts@, mods) ==> out@ == flat_text(
                    cat_frags(t.sub_texts@.take(i as int), self.game, None, self.ctx@.locals),
                ),
            decreases n - i,
        {
            let sub = match self.parse_sub_text(&t.sub_texts[i], None, &self.ctx.locals) {
                Ok(a) => a,
                Err(e) => {
                    proof {
                        if subtexts_undispatched(t.sub_texts@, mods) {
                            assert(subtext_undispatched(t.sub_texts@[i as int], mods));
                        }
                    }
                    return Err(e);
                },
            };
            let flat = sub.full_text();
            out.append(flat.as_str());
            proof {
                if subtexts_undispatched(t.sub_texts@, mods) {
                    assert(subtext_undispatched(t.sub_texts@[i as int], mods));
                    let s = t.sub_texts@;
                    assert(s.take(i + 1).drop_last() =~= s.take(i as int));
                    assert(s.take(i + 1).last() == s[i as int]);
                    crate::action::lemma_flat_concat(
                        cat_frags(s.take(i as int), self.game, None, self.ctx@.locals),
                        frags_of(s[i as int], self.game, None, self.ctx@.locals),
                    );
                }
            }
            i += 1;
        }
        proof {
            assert(t.sub_texts@.take(n as int) =~= t.sub_texts@);
        }
        Ok(trim_string(&out))
    }

    /// Whether selecting an option is currently allowed: the index is in
    /// range and the option is enabled.
    pub fn switch_allowed(&self, i: usize) -> (r: bool)
        ensures
            r == (i < self.switches@.len() && self.switches@[i as int]),
    {
        i < self.switches.len() && self.switches[i]
    }

    /// Selects switch option `i`: records the choice under the reserved
    /// `?` local and clears the per-option enabled flags.
    pub fn switch(&mut self, i: usize)
        requires
            old(self).wf(),
            i < old(self).switches@.len(),
            old(self).switches@[i as int],
            i as int <= 0x7fff_ffff_ffff_ffff,
        ensures
            final(self).wf(),
            final(self).game == old(self).game,
            final(self).runtime == old(self).runtime,
            final(self).frontend == old(self).frontend,
            final(self).switches == old(self).switches,
            final(self).vars == old(self).vars,
            final(self).ctx@.base == old(self).ctx@.base,
            final(self).ctx@.para == old(self).ctx@.para,
            final(self).ctx@.act == old(self).ctx@.act,
            final(self).ctx@.locals == clear_switch_keys(
                old(self).ctx@.locals.insert(seq!['?'], RawValue::Num(i as i64)),
                old(self).switches@.len() as int,
            ),
    {
        let q = "?".to_owned();
        proof {
            reveal_strlit("?");
            assert("?"@ =~= seq!['?']);
        }
        self.ctx.locals.set_value(q, RawValue::Num(i as i64));
        let n = self.switches.len();
        let mut j: usize = 0;
        while j < n
            invariant
                0 <= j <= n,
                n == old(self).switches@.len(),
                self.game == old(self).game,
                self.runtime == old(self).runtime,
                self.frontend == old(self).frontend,
                self.switches == old(self).switches,
                self.vars == old(self).vars,
                self.ctx.wf(),
                self.vars.wf(),
                self.game.wf(),
                self.ctx.cur_base_para == old(self).ctx.cur_base_para,
                self.ctx.cur_para == old(self).ctx.cur_para,
                self.ctx.cur_act == old(self).ctx.cur_act,
                self.ctx@.locals == clear_switch_keys(
                    old(self).ctx@.locals.insert(seq!['?'], RawValue::Num(i as i64)),
                    j as int,
                ),
            decreases n - j,
        {
            let key = usize_to_dec(j);
            self.ctx.locals.remove_key(&key);
            j += 1;
        }
    }
}

impl<R: PluginRuntime> Context<R> {
    /// The view the unit at a cursor renders to when nothing dispatches:
    /// the merged, trimmed action of the two locales, or the empty default
    /// where their variants mismatch (the error case defaults).
    pub open spec fn rendered(&self, loc: Seq<char>, c: RawContextView) -> ActionView {
        match merge_action_views(
            raw_action_view(self.game, loc, c, self.switches@, self.vars@),
            raw_action_view(self.game, self.game.config.base_lang@, c, self.switches@, self.vars@),
        ) {
            Some(av) => final_action_view(av),
            None => default_action_view(),
        }
    }

    /// Holds when rendering the unit at a cursor in the given locale (and
    /// the base locale) reaches no plugin, and no action plugin rewrites.
    pub open spec fn pure_at(&self, loc: Seq<char>, c: RawContextView) -> bool {
        &&& side_undispatched(self.game, loc, c, self.runtime.text_modules())
        &&& side_undispatched(
            self.game,
            self.game.config.base_lang@,
            c,
            self.runtime.text_modules(),
        )
        &&& self.runtime.action_chain_is_identity()
    }

    /// Renders the unit at a cursor in one locale, before any merge.
    /// A failed text interpretation yields `None`, as an absent side.
    fn raw_action(&self, loc: &Locale, ctx: &RawContext) -> (r: Option<Action>)
        requires
            self.wf(),
            ctx.wf(),
        ensures
            (match r {
                Some(a) => a.wf(),
                None => true,
            }),
            side_undispatched(self.game, loc@, ctx@, self.runtime.text_modules())
                ==> opt_action_view(r) == raw_action_view(
                self.game,
                loc@,
                ctx@,
                self.switches@,
                self.vars@,
            ),
    {
        let p = match self.game.find_para(loc, &ctx.cur_base_para, &ctx.cur_para) {
            Some(p) => p,
            None => {
                return None;
            },
        };
        if ctx.cur_act >= p.texts.len() {
            return None;
        }
        match &p.texts[ctx.cur_act] {
            Line::Empty => None,
            Line::Text(t) => match self.parse_text(loc, t, ctx) {
                Ok(a) => Some(Action::Text(a)),
                Err(_) => None,
            },
            Line::Switch(labels) => Some(Action::Switches(self.parse_switches(labels))),
            Line::Custom(_) => Some(Action::Custom(self.vars.duplicate())),
        }
    }

    /// Passes a merged text unit through the action-postprocess chain and
    /// trims the whitespace-only fragments at its ends.
    fn process_action_text(&self, ctx: &RawContext, action: ActionText) -> (r: Result<
        ActionText,
        EngineError,
    >)
        requires
            self.wf(),
            ctx.wf(),
            action.wf(),
        ensures
            (match r {
                Ok(a) => a.wf() && a@.text == trim_frags(a@.text),
                Err(_) => !self.runtime.action_chain_is_identity(),
            }),
            self.runtime.action_chain_is_identity() ==> (match r {
                Ok(a) => a@ == (ActionTextView { text: trim_frags(action@.text), ..action@ }),
                Err(_) => false,
            }),
    {
        let processed = match self.runtime.process_action(
            &self.game.config.props,
            self.frontend,
            ctx,
            action,
        ) {
            Ok(a) => a,
            Err(e) => {
                return Err(e);
            },
        };
        let ghost chained = processed@.text;
        let mut out = processed;
        out.trim_space_frags();
        proof {
            lemma_trim_frags_idempotent(chained);
        }
        Ok(out)
    }

    /// Renders the unit at a cursor for a locale: interprets both the
    /// requested and the base locale's lines, merges them, and postprocesses
    /// a text result. When nothing dispatches, the result is exactly the
    /// merged interpretation; mismatching variants surface as the error.
    pub fn get_action(&self, loc: &Locale, ctx: &RawContext) -> (r: Result<Action, EngineError>)
        requires
            self.wf(),
            ctx.wf(),
        ensures
            (match r {
                Ok(a) => a.wf(),
                Err(_) => true,
            }),
            (match r {
                Ok(Action::Text(t)) => t@.text == trim_frags(t@.text),
                _ => true,
            }),
            self.pure_at(loc@, ctx@) ==> (match merge_action_views(
                raw_action_view(self.game, loc@, ctx@, self.switches@, self.vars@),
                raw_action_view(
                    self.game,
                    self.game.config.base_lang@,
                    ctx@,
                    self.switches@,
                    self.vars@,
                ),
            ) {
                Some(av) => (match r {
                    Ok(a) => a@ == final_action_view(av),
                    Err(_) => false,
                }),
                None => r is Err,
            }),
    {
        let primary = self.raw_action(loc, ctx);
        let base = Locale(self.game.config.base_lang.0.clone());
        let secondary = self.raw_action(&base, ctx);
        let merged = match merge_action(Fallback::new(primary, secondary)) {
            Ok(a) => a,
            Err(e) => {
                return Err(e);
            },
        };
        match merged {
            Action::Text(at) => {
                let processed = match self.process_action_text(ctx, at) {
                    Ok(a) => a,
                    Err(e) => {
                        return Err(e);
                    },
                };
                Ok(Action::Text(processed))
            },
            other => Ok(other),
        }
    }

    /// Walks the cursor to the next renderable unit in the base locale:
    /// an exhausted paragraph follows its next-expression, a missing
    /// paragraph climbs one inclusion level or ends the story at top
    /// level. Gives up, as a story end, after `NAV_FUEL` silent steps.
    fn navigate(&mut self) -> (found: bool)
        requires
            old(self).wf(),
        ensures
            final(self).wf(),
            final(self).game == old(self).game,
            final(self).runtime == old(self).runtime,
            final(self).frontend == old(self).frontend,
            final(self).switches == old(self).switches,
            final(self).vars == old(self).vars,
            final(self).ctx@.locals == old(self).ctx@.locals,
            found ==> has_line(final(self).game, final(self).ctx@),
            has_line(old(self).game, old(self).ctx@) ==> found && final(self).ctx@ == old(
                self,
            ).ctx@,
            (match nav_walk(
                old(self).game,
                old(self).runtime.text_modules(),
                old(self).ctx@,
                NAV_FUEL as nat,
            ) {
                NavOutcome::Found(c) => found && final(self).ctx@ == c,
                NavOutcome::End => !found && final(self).ctx@.base == final(self).ctx@.para
                    && find_para_spec(
                    final(self).game,
                    final(self).game.config.base_lang@,
                    final(self).ctx@.base,
                    final(self).ctx@.para,
                ) is None,
                NavOutcome::Unknown => true,
            }),
    {
        let ghost g = old(self).game;
        let ghost mods = old(self).runtime.text_modules();
        let ghost wt = nav_walk(g, mods, old(self).ctx@, NAV_FUEL as nat);
        let mut fuel: u64 = NAV_FUEL;
        loop
            invariant
                self.wf(),
                self.game == old(self).game,
                self.runtime == old(self).runtime,
                self.frontend == old(self).frontend,
                self.switches == old(self).switches,
                self.vars == old(self).vars,
                self.ctx@.locals == old(self).ctx@.locals,
                has_line(old(self).game, old(self).ctx@) ==> self.ctx@ == old(self).ctx@,
                g == old(self).game,
                mods == old(self).runtime.text_modules(),
                wt == nav_walk(g, mods, old(self).ctx@, NAV_FUEL as nat),
                (wt matches NavOutcome::Found(_) || wt == NavOutcome::End) ==> wt == nav_walk(
                    g,
                    mods,
                    self.ctx@,
                    fuel as nat,
                ),
            decreases fuel,
        {
            match self.game.find_para(
                &self.game.config.base_lang,
                &self.ctx.cur_base_para,
                &self.ctx.cur_para,
            ) {
                Some(p) => {
                    if self.ctx.cur_act < p.texts.len() {
                        proof {
                            assert(has_line(self.game, self.ctx@));
                            assert(nav_walk(g, mods, self.ctx@, fuel as nat)
                                == NavOutcome::Found(self.ctx@));
                        }
                        return true;
                    }
                    let ghost cur = self.ctx@;
                    let ghost pg = *p;
                    proof {
                        assert(base_line_of(self.game, cur) is None);
                        assert(!has_line(g, cur));
                    }
                    if fuel == 0 {
                        proof {
                            assert(nav_walk(g, mods, cur, 0nat) == NavOutcome::Unknown);
                        }
                        return false;
                    }
                    let ghost nid = next_id_spec(g, pg, cur.locals, mods);
                    let next_para: String = match &p.next {
                        Some(t) => match self.call(t) {
                            Ok(s) => {
                                proof {
                                    if subtexts_undispatched(t.sub_texts@, mods) {
                                        assert(nid == Some(s@));
                                    } else {
                                        assert(nid is None);
                                    }
                                }
                                s
                            },
                            Err(_) => {
                                proof {
                                    assert(!subtexts_undispatched(t.sub_texts@, mods));
                                    assert(nid is None);
                                }
                                String::new()
                            },
                        },
                        None => {
                            let s = String::new();
                            proof {
                                assert(nid == Some(s@));
                            }
                            s
                        },
                    };
                    proof {
                        assert(nid is Some ==> nid == Some(next_para@));
                    }
                    self.ctx.cur_para = next_para;
                    self.ctx.cur_act = 0;
                    proof {
                        if wt matches NavOutcome::Found(_) || wt == NavOutcome::End {
                            assert(wt == nav_walk(g, mods, cur, fuel as nat));
                            if nid is None {
                                assert(nav_walk(g, mods, cur, fuel as nat)
                                    == NavOutcome::Unknown);
                                assert(false);
                            }
                            assert(self.ctx@ == (RawContextView {
                                para: nid->Some_0,
                                act: 0,
                                ..cur
                            }));
                            assert(nav_walk(g, mods, cur, fuel as nat) == nav_walk(
                                g,
                                mods,
                                self.ctx@,
                                (fuel - 1) as nat,
                            ));
                        }
                    }
                },
                None => {
                    let ghost cur = self.ctx@;
                    proof {
                        assert(base_line_of(self.game, cur) is None);
                        assert(!has_line(g, cur));
                    }
                    if fuel == 0 {
                        proof {
                            assert(nav_walk(g, mods, cur, 0nat) == NavOutcome::Unknown);
                        }
                        return false;
                    }
                    if self.ctx.cur_base_para.eq(&self.ctx.cur_para) {
                        proof {
                            assert(nav_walk(g, mods, cur, fuel as nat) == NavOutcome::End);
                        }
                        return false;
                    }
                    self.ctx.cur_base_para = self.ctx.cur_para.clone();
                    proof {
                        if wt matches NavOutcome::Found(_) || wt == NavOutcome::End {
                            assert(wt == nav_walk(g, mods, cur, fuel as nat));
                            assert(self.ctx@ == (RawContextView { base: cur.para, ..cur }));
                            assert(nav_walk(g, mods, cur, fuel as nat) == nav_walk(
                                g,
                                mods,
                                self.ctx@,
                                (fuel - 1) as nat,
                            ));
                        }
                    }
                },
            }
            fuel = fuel - 1;
        }
    }

    /// Steps to the next unit. On success the pre-increment cursor
    /// snapshot of the rendered unit comes back; `None` means the story
    /// has ended. A failed required dispatch aborts the step with the
    /// input cursor left unmodified.
    pub fn next_run(&mut self) -> (r: Result<Option<RawContext>, EngineError>)
        requires
            old(self).wf(),
        ensures
            final(self).wf(),
            final(self).game == old(self).game,
            final(self).runtime == old(self).runtime,
            final(self).frontend == old(self).frontend,
            (match r {
                Err(_) => {
                    &&& final(self).ctx@ == old(self).ctx@
                    &&& final(self).switches == old(self).switches
                    &&& final(self).vars == old(self).vars
                },
                Ok(None) => {
                    &&& final(self).ctx@.locals == old(self).ctx@.locals
                    &&& final(self).switches == old(self).switches
                    &&& final(self).vars == old(self).vars
                },
                Ok(Some(snap)) => {
                    &&& snap.wf()
                    &&& has_line(final(self).game, snap@)
                    &&& snap@.act + 1 <= usize::MAX
                    &&& final(self).ctx@.base == snap@.base
                    &&& final(self).ctx@.para == snap@.para
                    &&& final(self).ctx@.act == snap@.act + 1
                    &&& final(self).ctx@.locals == snap@.locals
                    &&& (match base_line_of(final(self).game, snap@) {
                        Some(Line::Text(_)) => {
                            &&& snap@.locals == old(self).ctx@.locals
                            &&& final(self).switches == old(self).switches
                            &&& final(self).vars == old(self).vars
                        },
                        Some(Line::Empty) => {
                            &&& snap@.locals == old(self).ctx@.locals
                            &&& final(self).switches == old(self).switches
                            &&& final(self).vars == old(self).vars
                        },
                        Some(Line::Switch(labels)) => {
                            &&& snap@.locals == old(self).ctx@.locals
                            &&& final(self).vars == old(self).vars
                            &&& final(self).switches@.len() == labels@.len()
                            &&& (forall|k: int|
                                0 <= k < labels@.len() ==> final(self).switches@[k]
                                    == switch_enabled_spec(old(self).ctx@.locals, k))
                        },
                        Some(Line::Custom(props)) => {
                            &&& final(self).switches == old(self).switches
                            &&& (props.pairs().len() == 0 ==> final(self).vars@ == Map::<
                                Seq<char>,
                                RawValue,
                            >::empty() && final(self).ctx@.locals == old(self).ctx@.locals)
                            &&& (props.pairs().len() > 0 ==> exists|m: Map<Seq<char>, RawValue>|
                                final(self).ctx@.locals == old(
                                    self,
                                ).ctx@.locals.union_prefer_right(m))
                        },
                        None => false,
                    })
                    &&& (has_line(old(self).game, old(self).ctx@) ==> {
                        &&& snap@.base == old(self).ctx@.base
                        &&& snap@.para == old(self).ctx@.para
                        &&& snap@.act == old(self).ctx@.act
                    })
                },
            }),
            (match nav_walk(
                old(self).game,
                old(self).runtime.text_modules(),
                old(self).ctx@,
                NAV_FUEL as nat,
            ) {
                NavOutcome::Found(c) => {
                    &&& !(r matches Ok(None))
                    &&& (match base_line_of(old(self).game, c) {
                        Some(Line::Custom(props)) => {
                            &&& (props.pairs().len() == 0 ==> r matches Ok(Some(_)))
                            &&& (props.pairs().len() > 0 && !old(
                                self,
                            ).runtime.line_modules().contains(props.pairs()[0].0@) ==> (match r {
                                Err(EngineError::MissingLineCommand(name)) => name@
                                    == props.pairs()[0].0@,
                                _ => false,
                            }))
                        },
                        Some(_) => r matches Ok(Some(_)),
                        None => false,
                    })
                    &&& (match r {
                        Ok(Some(snap)) => snap@.base == c.base && snap@.para == c.para
                            && snap@.act == c.act,
                        _ => true,
                    })
                },
                NavOutcome::End => r matches Ok(None)
                    && final(self).ctx@.base == final(self).ctx@.para && find_para_spec(
                    final(self).game,
                    final(self).game.config.base_lang@,
                    final(self).ctx@.base,
                    final(self).ctx@.para,
                ) is None,
                NavOutcome::Unknown => true,
            }),
    {
        let ghost wt = nav_walk(
            old(self).game,
            old(self).runtime.text_modules(),
            old(self).ctx@,
            NAV_FUEL as nat,
        );
        proof {
            lemma_nav_walk_found(
                old(self).game,
                old(self).runtime.text_modules(),
                old(self).ctx@,
                NAV_FUEL as nat,
            );
        }
        let saved = self.ctx.duplicate();
        let found = self.navigate();
        if !found {
            return Ok(None);
        }
        let ghost gline = base_line_of(self.game, self.ctx@);
        let ghost pre_locals = self.ctx@.locals;
        proof {
            match wt {
                NavOutcome::Found(c) => {
                    assert(self.ctx@ == c);
                    assert(gline == base_line_of(old(self).game, c));
                },
                _ => {},
            }
        }
        let effect: StepEffect = {
            match self.game.find_para(
                &self.game.config.base_lang,
                &self.ctx.cur_base_para,
                &self.ctx.cur_para,
            ) {
                None => {
                    proof {
                        assert(false);
                    }
                    StepEffect::Nothing
                },
                Some(p) => {
                    if self.ctx.cur_act >= p.texts.len() {
                        proof {
                            assert(false);
                        }
                        StepEffect::Nothing
                    } else {
                        match &p.texts[self.ctx.cur_act] {
                            Line::Empty => StepEffect::Nothing,
                            Line::Text(_) => StepEffect::Nothing,
                            Line::Switch(labels) => {
                                let m = labels.len();
                                let mut flags: Vec<bool> = Vec::new();
                                let mut k: usize = 0;
                                while k < m
                                    invariant
                                        0 <= k <= m,
                                        self.ctx.wf(),
                                        pre_locals == self.ctx@.locals,
                                        flags@.len() == k,
                                        forall|j: int|
                                            0 <= j < k ==> flags@[j] == switch_enabled_spec(
                                                pre_locals,
                                                j,
                                            ),
                                    decreases m - k,
                                {
                                    let key = usize_to_dec(k);
                                    match self.ctx.locals.get(&key) {
                                        Some(v) => match v {
                                            RawValue::Unit => flags.push(true),
                                            _ => {
                                                let b = v.get_bool();
                                                flags.push(b);
                                            },
                                        },
                                        None => flags.push(true),
                                    }
                                    k += 1;
                                }
                                StepEffect::SetSwitches(flags)
                            },
                            Line::Custom(props) => {
                                proof {
                                    assert(crate::game::para_wf(*p));
                                    assert(crate::game::line_wf(
                                        p.texts@[self.ctx.cur_act as int],
                                    ));
                                    assert(gline == Some(Line::Custom(*props)));
                                }
                                match props.first_key() {
                                    None => StepEffect::ClearVars,
                                    Some(cmd) => {
                                        proof {
                                            assert(*cmd == props.pairs()[0].0);
                                        }
                                        match self.runtime.dispatch_line(
                                            cmd,
                                            &self.game.config.props,
                                            self.frontend,
                                            &self.ctx,
                                            props,
                                        ) {
                                            None => {
                                                proof {
                                                    assert(!self.runtime.line_modules().contains(
                                                        cmd@,
                                                    ));
                                                }
                                                StepEffect::Fail(
                                                    EngineError::MissingLineCommand(cmd.clone()),
                                                )
                                            },
                                            Some(Err(e)) => {
                                                proof {
                                                    assert(self.runtime.line_modules().contains(
                                                        cmd@,
                                                    ));
                                                }
                                                StepEffect::Fail(e)
                                            },
                                            Some(Ok(res)) => {
                                                proof {
                                                    assert(self.runtime.line_modules().contains(
                                                        cmd@,
                                                    ));
                                                }
                                                StepEffect::Apply(res)
                                            },
                                        }
                                    },
                                }
                            },
                        }
                    }
                },
            }
        };
        match effect {
            StepEffect::Nothing => {},
            StepEffect::SetSwitches(f) => {
                self.switches = f;
            },
            StepEffect::ClearVars => {
                self.vars = StrMap::new();
            },
            StepEffect::Apply(res) => {
                self.ctx.locals.extend_from(res.locals);
                self.vars = res.vars;
            },
            StepEffect::Fail(e) => {
                self.ctx = saved;
                return Err(e);
            },
        }
        proof {
            assert(base_line_of(self.game, self.ctx@) == gline);
            assert(has_line(self.game, self.ctx@));
            match wt {
                NavOutcome::Found(c) => {
                    assert(self.ctx@.base == c.base);
                    assert(self.ctx@.para == c.para);
                    assert(self.ctx@.act == c.act);
                },
                _ => {},
            }
        }
        let snap = self.ctx.duplicate();
        self.ctx.cur_act = self.ctx.cur_act + 1;
        Ok(Some(snap))
    }

    /// Whether the base locale's line at a cursor is a text line: only
    /// those enter the history.
    pub fn line_is_text(&self, ctx: &RawContext) -> (r: bool)
        requires
            self.wf(),
        ensures
            r == (base_line_of(self.game, ctx@) matches Some(Line::Text(_))),
    {
        match self.game.find_para(
            &self.game.config.base_lang,
            &ctx.cur_base_para,
            &ctx.cur_para,
        ) {
            Some(p) => {
                if ctx.cur_act < p.texts.len() {
                    match &p.texts[ctx.cur_act] {
                        Line::Text(_) => true,
                        _ => false,
                    }
                } else {
                    false
                }
            },
            None => false,
        }
    }

    /// The title of the paragraph the cursor stands in: the requested
    /// locale's title when that paragraph resolves and carries one, else
    /// the base locale's.
    pub fn current_paragraph_title(&self, loc: &Locale) -> (r: Option<&String>)
        requires
            self.wf(),
        ensures
            opt_str_view_ref(r) == title_spec(self.game, loc@, self.ctx@),
    {
        match self.game.find_para(loc, &self.ctx.cur_base_para, &self.ctx.cur_para) {
            Some(p) => match &p.title {
                Some(t) => Some(t),
                None => self.base_title(),
            },
            None => self.base_title(),
        }
    }

    fn base_title(&self) -> (r: Option<&String>)
        requires
            self.wf(),
        ensures
            opt_str_view_ref(r) == secondary_title_spec(self.game, self.ctx@),
    {
        match self.game.find_para(
            &self.game.config.base_lang,
            &self.ctx.cur_base_para,
            &self.ctx.cur_para,
        ) {
            Some(p) => match &p.title {
                Some(t) => Some(t),
                None => None,
            },
            None => None,
        }
    }
}

/// The view of an optional string reference.
pub open spec fn opt_str_view_ref(o: Option<&String>) -> Option<Seq<char>> {
    match o {
        Some(s) => Some(s@),
        None => None,
    }
}

/// The base locale's title for the cursor's paragraph.
pub open spec fn secondary_title_spec(g: Game, c: RawContextView) -> Option<Seq<char>> {
    match find_para_spec(g, g.config.base_lang@, c.base, c.para) {
        Some(p) => opt_str_view(p.title),
        None => None,
    }
}

/// The title shown for the cursor's paragraph, with locale fallback.
pub open spec fn title_spec(g: Game, loc: Seq<char>, c: RawContextView) -> Option<Seq<char>> {
    match find_para_spec(g, loc, c.base, c.para) {
        Some(p) => if p.title is Some {
            opt_str_view(p.title)
        } else {
            secondary_title_spec(g, c)
        },
        None => secondary_title_spec(g, c),
    }
}

/// The locals after the per-option enabled flags `0 .. n` are cleared.
pub open spec fn clear_switch_keys(m: Map<Seq<char>, RawValue>, n: int) -> Map<
    Seq<char>,
    RawValue,
>
    decreases n,
{
    if n <= 0 {
        m
    } else {
        clear_switch_keys(m, n - 1).remove(dec_nat((n - 1) as nat))
    }
}

} // verus!
