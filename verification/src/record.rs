use vstd::prelude::*;
use crate::script::VarMap;
use crate::smap::StrMap;
use crate::types::Locale;
use crate::value::RawValue;

verus! {

/// The abstract value of a cursor.
#[verifier::ext_equal]
pub struct RawContextView {
    pub base: Seq<char>,
    pub para: Seq<char>,
    pub act: int,
    pub locals: Map<Seq<char>, RawValue>,
}

/// The position pointer into the story: the inclusion-base paragraph id,
/// the current paragraph id, the index of the next unit to render within
/// it, and the local variable scratchpad.
pub struct RawContext {
    pub cur_base_para: String,
    pub cur_para: String,
    pub cur_act: usize,
    pub locals: VarMap,
}

impl View for RawContext {
    type V = RawContextView;

    open spec fn view(&self) -> RawContextView {
        RawContextView {
            base: self.cur_base_para@,
            para: self.cur_para@,
            act: self.cur_act as int,
            locals: self.locals@,
        }
    }
}

/// The cursor one act further on, everything else unchanged.
pub open spec fn advanced(c: RawContextView) -> RawContextView {
    RawContextView { act: c.act + 1, ..c }
}

impl RawContext {
    pub open spec fn wf(&self) -> bool {
        self.locals.wf()
    }

    pub fn new() -> (r: Self)
        ensures
            r.wf(),
            r@ == (RawContextView {
                base: Seq::empty(),
                para: Seq::empty(),
                act: 0,
                locals: Map::empty(),
            }),
    {
        RawContext {
            cur_base_para: String::new(),
            cur_para: String::new(),
            cur_act: 0,
            locals: StrMap::new(),
        }
    }

    /// A snapshot of the cursor, proved to denote the same position.
    pub fn duplicate(&self) -> (r: Self)
        ensures
            r@ == self@,
            r.wf() == self.wf(),
    {
        RawContext {
            cur_base_para: self.cur_base_para.clone(),
            cur_para: self.cur_para.clone(),
            cur_act: self.cur_act,
            locals: self.locals.duplicate(),
        }
    }
}

/// One saved play-through: the ordered cursor snapshots of its rendered
/// text units.
pub struct ActionRecord {
    pub history: Vec<RawContext>,
}

/// The views of a history.
pub open spec fn history_view(h: Seq<RawContext>) -> Seq<RawContextView> {
    h.map_values(|c: RawContext| c@)
}

impl View for ActionRecord {
    type V = Seq<RawContextView>;

    open spec fn view(&self) -> Seq<RawContextView> {
        history_view(self.history@)
    }
}

impl ActionRecord {
    pub open spec fn wf(&self) -> bool {
        forall|i: int| 0 <= i < self.history@.len() ==> (#[trigger] self.history@[i]).wf()
    }

    pub fn new() -> (r: Self)
        ensures
            r.wf(),
            r@ == Seq::<RawContextView>::empty(),
    {
        let r = ActionRecord { history: Vec::new() };
        proof {
            assert(r@ =~= Seq::<RawContextView>::empty());
        }
        r
    }

    /// The last snapshot: the current position of the play-through.
    pub fn last_ctx(&self) -> (r: Option<&RawContext>)
        ensures
            match r {
                Some(c) => self@.len() > 0 && c@ == self@.last() && *c == self.history@.last(),
                None => self@.len() == 0,
            },
    {
        if self.history.len() > 0 {
            Some(&self.history[self.history.len() - 1])
        } else {
            None
        }
    }

    /// A deep copy of the record.
    pub fn duplicate(&self) -> (r: Self)
        ensures
            r@ == self@,
            r.wf() == self.wf(),
    {
        let n = self.history.len();
        let mut out: Vec<RawContext> = Vec::new();
        let mut i: usize = 0;
        while i < n
            invariant
                n == self.history@.len(),
                0 <= i <= n,
                out@.len() == i,
                forall|j: int|
                    0 <= j < i ==> (#[trigger] out@[j])@ == self.history@[j]@ && out@[j].wf()
                        == self.history@[j].wf(),
            decreases n - i,
        {
            out.push(self.history[i].duplicate());
            i += 1;
        }
        let r = ActionRecord { history: out };
        proof {
            assert(r@ =~= self@);
            if self.wf() {
                assert forall|j: int| 0 <= j < n implies (#[trigger] r.history@[j]).wf() by {
                    assert(out@[j].wf() == self.history@[j].wf());
                }
            }
            if r.wf() {
                assert forall|j: int| 0 <= j < n implies (#[trigger] self.history@[j]).wf() by {
                    assert(out@[j].wf() == self.history@[j].wf());
                    assert(r.history@[j].wf());
                }
            }
        }
        r
    }
}

/// The per-story cross-session ledger: for each paragraph, the highest act
/// index that any play-through has rendered.
pub struct GlobalRecord {
    pub record: StrMap<usize>,
}

impl View for GlobalRecord {
    type V = Map<Seq<char>, usize>;

    open spec fn view(&self) -> Map<Seq<char>, usize> {
        self.record@
    }
}

impl GlobalRecord {
    pub open spec fn wf(&self) -> bool {
        self.record.wf()
    }

    pub fn new() -> (r: Self)
        ensures
            r.wf(),
            r@ == Map::<Seq<char>, usize>::empty(),
    {
        GlobalRecord { record: StrMap::new() }
    }

    /// Notes a produced cursor: the paragraph's ledger entry rises to its
    /// act index and never falls.
    pub fn update(&mut self, ctx: &RawContext)
        requires
            old(self).wf(),
        ensures
            final(self).wf(),
            final(self)@ == old(self)@.insert(
                ctx@.para,
                (if old(self)@.contains_key(ctx@.para) && old(self)@[ctx@.para] >= ctx.cur_act {
                    old(self)@[ctx@.para]
                } else {
                    ctx.cur_act
                }),
            ),
    {
        let prev: Option<usize> = match self.record.get(&ctx.cur_para) {
            Some(v) => Some(*v),
            None => None,
        };
        match prev {
            Some(v) => {
                if v < ctx.cur_act {
                    self.record.set_value(ctx.cur_para.clone(), ctx.cur_act);
                } else {
                    let ghost m = self@;
                    proof {
                        assert(m.insert(ctx@.para, m[ctx@.para]) =~= m);
                    }
                }
            },
            None => {
                self.record.set_value(ctx.cur_para.clone(), ctx.cur_act);
            },
        }
    }

    /// Whether a cursor's unit has been rendered before, in any session.
    pub fn visited(&self, ctx: &RawContext) -> (r: bool)
        requires
            self.wf(),
        ensures
            r == (self@.contains_key(ctx@.para) && self@[ctx@.para] >= ctx@.act),
    {
        match self.record.get(&ctx.cur_para) {
            Some(v) => *v >= ctx.cur_act,
            None => false,
        }
    }
}

/// The caller-facing settings: the active locale and the optional
/// secondary locale used for bilingual display.
pub struct Settings {
    pub lang: Locale,
    pub sub_lang: Option<Locale>,
}

impl Settings {
    pub fn new(lang: Locale, sub_lang: Option<Locale>) -> (r: Self)
        ensures
            r.lang == lang,
            r.sub_lang == sub_lang,
    {
        Settings { lang, sub_lang }
    }
}

impl Default for Settings {
    fn default() -> (r: Self)
        ensures
            r.lang@ == Seq::<char>::empty(),
            r.sub_lang is None,
    {
        Settings { lang: Locale(String::new()), sub_lang: None }
    }
}

} // verus!
