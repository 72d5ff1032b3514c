use vstd::prelude::*;

verus! {

/// A compact handle for one piece of interned text (an origin or node name).
/// Relation rows carry symbols instead of owned strings, so rows can be
/// compared cheaply and without duplicating text.
#[derive(Clone, Copy, PartialEq, Eq, Structural, Debug)]
pub struct Symbol {
    pub idx: usize,
}

/// No two entries of the table hold the same text.
pub open spec fn distinct_texts(w: Seq<Seq<char>>) -> bool {
    forall|i: int, j: int| 0 <= i < j < w.len() ==> w[i] != w[j]
}

/// Maps textual identifiers to `Symbol` handles. Interning the same text
/// twice yields the same handle; distinct texts yield distinct handles; a
/// handle resolves back to exactly the text it was issued for. Handles are
/// never evicted: the table only grows, and every issued handle stays valid.
pub struct Interner {
    names: Vec<String>,
}

impl View for Interner {
    type V = Seq<Seq<char>>;

    closed spec fn view(&self) -> Seq<Seq<char>> {
        self.names@.map_values(|s: String| s@)
    }
}

impl Interner {
    /// Well-formedness: the table never holds the same text twice, which is
    /// what makes handles canonical.
    pub open spec fn wf(&self) -> bool {
        distinct_texts(self@)
    }

    /// The interner has issued this handle.
    pub open spec fn holds(&self, s: Symbol) -> bool {
        s.idx < self@.len()
    }

    /// The text a held handle stands for.
    pub open spec fn text_of(&self, s: Symbol) -> Seq<char>
        recommends
            self.holds(s),
    {
        self@[s.idx as int]
    }

    /// Some handle for this text has already been issued.
    pub open spec fn has_text(&self, t: Seq<char>) -> bool {
        exists|i: int| 0 <= i < self@.len() && self@[i] == t
    }

    pub fn new() -> (w: Interner)
        ensures
            w.wf(),
            w@ == Seq::<Seq<char>>::empty(),
    {
        Interner { names: Vec::new() }
    }

    /// Whether the handle was issued by this interner; decoding uses this to
    /// reject rows that carry a foreign handle.
    pub fn contains_symbol(&self, s: Symbol) -> (b: bool)
        ensures
            b == self.holds(s),
    {
        s.idx < self.names.len()
    }

    /// Intern a piece of text: return the handle already issued for it, or
    /// issue a fresh one. Previously issued handles keep their texts.
    pub fn intern(&mut self, text: &String) -> (s: Symbol)
        requires
            old(self).wf(),
        ensures
            final(self).wf(),
            final(self).holds(s),
            final(self).text_of(s) == text@,
            old(self)@.len() <= final(self)@.len(),
            forall|i: int| 0 <= i < old(self)@.len() ==> final(self)@[i] == old(self)@[i],
            old(self).has_text(text@) ==> final(self)@ == old(self)@,
            !old(self).has_text(text@) ==> final(self)@ == old(self)@.push(text@)
                && s.idx == old(self)@.len(),
    {
        let n: usize = self.names.len();
        let mut i: usize = 0;
        while i < n
            invariant
                *self == *old(self),
                old(self).wf(),
                n == self.names@.len(),
                i <= n,
                forall|j: int| 0 <= j < i ==> self@[j] != text@,
            decreases n - i,
        {
            if self.names[i] == *text {
                assert(self@[i as int] == text@);
                return Symbol { idx: i };
            }
            i += 1;
        }
        let s = Symbol { idx: n };
        self.names.push(text.clone());
        assert(self@ =~= old(self)@.push(text@));
        s
    }

    /// Resolve a held handle back to its text. Never fails for handles this
    /// interner issued.
    pub fn resolve(&self, s: Symbol) -> (t: &String)
        requires
            self.holds(s),
        ensures
            t@ == self.text_of(s),
    {
        &self.names[s.idx]
    }
}

/// Law: interned symbols are faithful names for their texts. For a
/// well-formed interner, two handles it holds name the same text exactly when
/// they are the same handle. Together with the contract of `intern` (the
/// returned handle resolves to the interned text) this gives both halves of
/// the interning guarantee: `resolve` inverts `intern`, and interning two
/// different texts yields two different handles.
pub proof fn lemma_symbols_faithful(w: Interner, a: Symbol, b: Symbol)
    requires
        w.wf(),
        w.holds(a),
        w.holds(b),
    ensures
        w.text_of(a) == w.text_of(b) <==> a == b,
{
    if a.idx != b.idx {
        if a.idx < b.idx {
            assert(w@[a.idx as int] != w@[b.idx as int]);
        } else {
            assert(w@[b.idx as int] != w@[a.idx as int]);
        }
    }
}

} // verus!
