use vstd::prelude::*;
use crate::record::{ActionRecord, RawContext, RawContextView};
use crate::script::{Line, Paragraph};
use crate::smap::StrMap;
use crate::types::Locale;
use crate::value::RawValue;

verus! {

/// A line whose payload tables are well formed.
pub open spec fn line_wf(l: Line) -> bool {
    match l {
        Line::Custom(m) => m.wf(),
        _ => true,
    }
}

/// A paragraph whose lines are well formed.
pub open spec fn para_wf(p: Paragraph) -> bool {
    forall|i: int| 0 <= i < p.texts@.len() ==> line_wf(#[trigger] p.texts@[i])
}

/// The game's static configuration: metadata, the configured start
/// paragraph, the base locale, and the property table plugins may patch.
pub struct GameConfig {
    pub title: String,
    pub author: String,
    pub base_lang: Locale,
    pub paras_path: String,
    pub res_path: Option<String>,
    pub start: String,
    pub props: StrMap<String>,
}

impl GameConfig {
    pub open spec fn wf(&self) -> bool {
        self.props.wf()
    }
}

/// The static story model: locale-indexed paragraph tables (each file key
/// holding its paragraphs in order) and locale-indexed resource tables.
pub struct Game {
    pub config: GameConfig,
    pub paras: StrMap<StrMap<Vec<Paragraph>>>,
    pub res: StrMap<StrMap<RawValue>>,
}

/// The first paragraph of a list carrying a tag.
pub open spec fn first_para_with_tag(ps: Seq<Paragraph>, tag: Seq<char>) -> Option<Paragraph>
    decreases ps.len(),
{
    if ps.len() == 0 {
        None
    } else if ps.first().tag@ == tag {
        Some(ps.first())
    } else {
        first_para_with_tag(ps.subrange(1, ps.len() as int), tag)
    }
}

proof fn lemma_first_para_skip(ps: Seq<Paragraph>, tag: Seq<char>, i: int)
    requires
        0 <= i <= ps.len(),
        forall|j: int| 0 <= j < i ==> ps[j].tag@ != tag,
    ensures
        first_para_with_tag(ps, tag) == first_para_with_tag(ps.subrange(i, ps.len() as int), tag),
    decreases i,
{
    if i == 0 {
        assert(ps.subrange(0, ps.len() as int) =~= ps);
    } else {
        lemma_first_para_skip(ps, tag, i - 1);
        let s = ps.subrange(i - 1, ps.len() as int);
        assert(s.first() == ps[i - 1]);
        assert(s.subrange(1, s.len() as int) =~= ps.subrange(i, ps.len() as int));
    }
}

/// The paragraph the model resolves for a locale, a base id and a tag.
pub open spec fn find_para_spec(g: Game, loc: Seq<char>, base: Seq<char>, tag: Seq<char>) -> Option<
    Paragraph,
> {
    if g.paras@.contains_key(loc) && g.paras@[loc]@.contains_key(base) {
        first_para_with_tag(g.paras@[loc]@[base]@, tag)
    } else {
        None
    }
}

/// The resource value for a key: the requested locale's table first, the
/// base locale's table where the key (or the whole table) is missing.
pub open spec fn find_res_spec(g: Game, loc: Seq<char>, key: Seq<char>) -> Option<RawValue> {
    if g.res@.contains_key(loc) && g.res@[loc]@.contains_key(key) {
        Some(g.res@[loc]@[key])
    } else {
        let base = g.config.base_lang@;
        if g.res@.contains_key(base) && g.res@[base]@.contains_key(key) {
            Some(g.res@[base]@[key])
        } else {
            None
        }
    }
}

impl Game {
    pub open spec fn wf(&self) -> bool {
        &&& self.config.wf()
        &&& self.paras.wf()
        &&& self.res.wf()
        &&& forall|k: Seq<char>|
            self.paras@.contains_key(k) ==> (#[trigger] self.paras@[k]).wf()
        &&& forall|k: Seq<char>, f: Seq<char>|
            self.paras@.contains_key(k) && self.paras@[k]@.contains_key(f) ==> forall|i: int|
                0 <= i < self.paras@[k]@[f]@.len() ==> para_wf(#[trigger] self.paras@[k]@[f]@[i])
        &&& forall|k: Seq<char>| self.res@.contains_key(k) ==> (#[trigger] self.res@[k]).wf()
    }

    /// A model with no tables yet.
    pub fn new(config: GameConfig) -> (r: Self)
        requires
            config.wf(),
        ensures
            r.wf(),
            r.config == config,
            r.paras@ == Map::<Seq<char>, StrMap<Vec<Paragraph>>>::empty(),
            r.res@ == Map::<Seq<char>, StrMap<RawValue>>::empty(),
    {
        Game { config, paras: StrMap::new(), res: StrMap::new() }
    }

    /// Adds one locale's paragraph table.
    pub fn insert_para_table(&mut self, loc: Locale, table: StrMap<Vec<Paragraph>>)
        requires
            old(self).wf(),
            table.wf(),
            forall|f: Seq<char>|
                table@.contains_key(f) ==> forall|i: int|
                    0 <= i < table@[f]@.len() ==> para_wf(#[trigger] table@[f]@[i]),
        ensures
            final(self).wf(),
            final(self).config == old(self).config,
            final(self).res == old(self).res,
            final(self).paras@ == old(self).paras@.insert(loc@, table),
    {
        self.paras.set_value(loc.0, table);
    }

    /// Adds one locale's resource table.
    pub fn insert_res_table(&mut self, loc: Locale, table: StrMap<RawValue>)
        requires
            old(self).wf(),
            table.wf(),
        ensures
            final(self).wf(),
            final(self).config == old(self).config,
            final(self).paras == old(self).paras,
            final(self).res@ == old(self).res@.insert(loc@, table),
    {
        self.res.set_value(loc.0, table);
    }

    /// The cursor a new game starts from: the configured start paragraph,
    /// at act zero, with empty locals.
    pub fn start_context(&self) -> (r: RawContext)
        ensures
            r.wf(),
            r@ == (RawContextView {
                base: self.config.start@,
                para: self.config.start@,
                act: 0,
                locals: Map::empty(),
            }),
    {
        RawContext {
            cur_base_para: self.config.start.clone(),
            cur_para: self.config.start.clone(),
            cur_act: 0,
            locals: StrMap::new(),
        }
    }

    /// Resolves a paragraph in one locale.
    pub fn find_para(&self, loc: &Locale, base: &String, tag: &String) -> (r: Option<&Paragraph>)
        requires
            self.wf(),
        ensures
            match r {
                Some(p) => find_para_spec(*self, loc@, base@, tag@) == Some(*p) && para_wf(*p),
                None => find_para_spec(*self, loc@, base@, tag@) is None,
            },
    {
        let table = match self.paras.get(&loc.0) {
            Some(t) => t,
            None => {
                return None;
            },
        };
        let ps = match table.get(base) {
            Some(ps) => ps,
            None => {
                return None;
            },
        };
        let n = ps.len();
        let mut i: usize = 0;
        while i < n
            invariant
                n == ps@.len(),
                0 <= i <= n,
                self.wf(),
                self.paras@.contains_key(loc@),
                self.paras@[loc@]@.contains_key(base@),
                ps@ == self.paras@[loc@]@[base@]@,
                forall|j: int| 0 <= j < i ==> ps@[j].tag@ != tag@,
            decreases n - i,
        {
            if ps[i].tag.eq(tag) {
                proof {
                    lemma_first_para_skip(ps@, tag@, i as int);
                    let s = ps@.subrange(i as int, ps@.len() as int);
                    assert(s.first() == ps@[i as int]);
                    assert(first_para_with_tag(s, tag@) == Some(ps@[i as int]));
                    assert(self.paras@[loc@]@.contains_key(base@));
                    assert(para_wf(self.paras@[loc@]@[base@]@[i as int]));
                }
                return Some(&ps[i]);
            }
            i += 1;
        }
        proof {
            lemma_first_para_skip(ps@, tag@, n as int);
            assert(ps@.subrange(n as int, ps@.len() as int).len() == 0);
        }
        None
    }

    /// The resource value for a key, with key-level locale fallback.
    pub fn find_res(&self, loc: &Locale, key: &String) -> (r: Option<&RawValue>)
        requires
            self.wf(),
        ensures
            match r {
                Some(v) => find_res_spec(*self, loc@, key@) == Some(*v),
                None => find_res_spec(*self, loc@, key@) is None,
            },
    {
        if let Some(table) = self.res.get(&loc.0) {
            if let Some(v) = table.get(key) {
                return Some(v);
            }
        }
        if let Some(table) = self.res.get(&self.config.base_lang.0) {
            if let Some(v) = table.get(key) {
                return Some(v);
            }
        }
        None
    }
}

impl ActionRecord {
    /// The cursor a resumed game continues from: the record's last
    /// snapshot, or the game's start when the record is empty.
    pub fn last_ctx_with_game(&self, game: &Game) -> (r: RawContext)
        ensures
            r.wf() || self@.len() > 0,
            self@.len() > 0 ==> r@ == self@.last() && r.wf() == self.history@.last().wf(),
            self@.len() == 0 ==> r@ == (RawContextView {
                base: game.config.start@,
                para: game.config.start@,
                act: 0,
                locals: Map::empty(),
            }),
    {
        match self.last_ctx() {
            Some(c) => c.duplicate(),
            None => game.start_context(),
        }
    }
}

} // verus!
