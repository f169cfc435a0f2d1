//! A semantic graph view of node data: actions, entries and links become
//! subject–predicate–object triples that can be queried by pattern and
//! traversed along references.

use vstd::prelude::*;
use crate::error::Error;
use crate::ota::hex::hex_encode;
use crate::text::{append_str, append_decimal, decimal, str_eq, is_prefix, starts_with, lowercase};
use crate::types::{Action, Entry, Link, Record, action_bytes, entry_bytes};
use crate::crypto::blake3_digest;

verus! {

/// Object of a triple - a literal or a reference.
#[derive(Debug, Clone, PartialEq)]
pub enum TripleObject {
    /// A literal value.
    Literal(String),
    /// An integer value.
    Integer(i64),
    /// A reference to another node.
    Reference(String),
    /// A hash reference.
    Hash(crate::types::Hash),
    /// A boolean value.
    Boolean(bool),
}

/// The abstract value of a triple's object.
pub enum ObjectView {
    /// A literal value.
    Literal(Seq<char>),
    /// An integer value.
    Integer(i64),
    /// A reference to another node.
    Reference(Seq<char>),
    /// The bytes of a hash.
    Hash(Seq<u8>),
    /// A boolean value.
    Boolean(bool),
}

impl View for TripleObject {
    type V = ObjectView;

    open spec fn view(&self) -> ObjectView {
        match self {
            TripleObject::Literal(s) => ObjectView::Literal(s@),
            TripleObject::Integer(i) => ObjectView::Integer(*i),
            TripleObject::Reference(s) => ObjectView::Reference(s@),
            TripleObject::Hash(h) => ObjectView::Hash(h.0@),
            TripleObject::Boolean(b) => ObjectView::Boolean(*b),
        }
    }
}

impl TripleObject {
    /// The literal's text, if the object is a literal.
    pub fn as_string(&self) -> (r: Option<&str>)
        ensures
            self is Literal ==> (r matches Some(s) && s@ == self->Literal_0@),
            !(self is Literal) ==> r is None,
    {
        match self {
            TripleObject::Literal(s) => Some(s.as_str()),
            _ => None,
        }
    }

    /// A copy of the object.
    pub fn copy(&self) -> (r: Self)
        ensures
            r@ == self@,
    {
        match self {
            TripleObject::Literal(s) => TripleObject::Literal(s.clone()),
            TripleObject::Integer(i) => TripleObject::Integer(*i),
            TripleObject::Reference(s) => TripleObject::Reference(s.clone()),
            TripleObject::Hash(h) => TripleObject::Hash(*h),
            TripleObject::Boolean(b) => TripleObject::Boolean(*b),
        }
    }

    /// Whether two objects hold the same value.
    pub fn same_as(&self, other: &Self) -> (r: bool)
        ensures
            r == (self@ == other@),
    {
        match (self, other) {
            (TripleObject::Literal(a), TripleObject::Literal(b)) => str_eq(a.as_str(), b.as_str()),
            (TripleObject::Integer(a), TripleObject::Integer(b)) => *a == *b,
            (TripleObject::Reference(a), TripleObject::Reference(b)) => str_eq(a.as_str(), b.as_str()),
            (TripleObject::Hash(a), TripleObject::Hash(b)) => a.same_bytes(b),
            (TripleObject::Boolean(a), TripleObject::Boolean(b)) => *a == *b,
            _ => false,
        }
    }
}

/// A semantic triple representing a fact.
#[derive(Debug, Clone, PartialEq)]
pub struct SemanticTriple {
    /// Subject (the thing being described).
    pub subject: String,
    /// Predicate (the relationship).
    pub predicate: String,
    /// Object (the value or related thing).
    pub object: TripleObject,
    /// Source hash (the record the triple came from).
    pub source_hash: Option<crate::types::Hash>,
}

/// The abstract value of a triple.
pub struct TripleView {
    /// The subject.
    pub subject: Seq<char>,
    /// The predicate.
    pub predicate: Seq<char>,
    /// The object.
    pub object: ObjectView,
    /// The bytes of the source hash, if any.
    pub source: Option<Seq<u8>>,
}

/// The abstract value of an optional hash.
pub open spec fn opt_hash_view(h: Option<crate::types::Hash>) -> Option<Seq<u8>> {
    match h {
        Some(h) => Some(h.0@),
        None => None,
    }
}

impl View for SemanticTriple {
    type V = TripleView;

    open spec fn view(&self) -> TripleView {
        TripleView {
            subject: self.subject@,
            predicate: self.predicate@,
            object: self.object@,
            source: opt_hash_view(self.source_hash),
        }
    }
}

impl SemanticTriple {
    /// A copy of the triple.
    pub fn copy(&self) -> (r: Self)
        ensures
            r@ == self@,
    {
        SemanticTriple {
            subject: self.subject.clone(),
            predicate: self.predicate.clone(),
            object: self.object.copy(),
            source_hash: self.source_hash,
        }
    }
}

/// The abstract values of a sequence of triples.
pub open spec fn views(ts: Seq<SemanticTriple>) -> Seq<TripleView> {
    ts.map_values(|t: SemanticTriple| t@)
}

/// A triple's abstract value from its parts.
pub open spec fn tv(subject: Seq<char>, predicate: Seq<char>, object: ObjectView, source: Option<Seq<u8>>) -> TripleView {
    TripleView { subject, predicate, object, source }
}

/// The triples, in order, that satisfy `f`.
pub open spec fn select(ts: Seq<TripleView>, f: spec_fn(TripleView) -> bool) -> Seq<TripleView>
    decreases ts.len(),
{
    if ts.len() == 0 {
        Seq::empty()
    } else if f(ts.last()) {
        select(ts.drop_last(), f).push(ts.last())
    } else {
        select(ts.drop_last(), f)
    }
}

/// The filter on an exact subject and an exact predicate, each optional.
pub open spec fn where_filter(subject: Option<Seq<char>>, predicate: Option<Seq<char>>) -> spec_fn(TripleView) -> bool {
    |t: TripleView| (subject matches Some(s) ==> t.subject == s) && (predicate matches Some(p) ==> t.predicate == p)
}

/// The distinct subjects of the triples.
pub open spec fn subject_set(ts: Seq<TripleView>) -> Set<Seq<char>> {
    Set::new(|s: Seq<char>| exists|i: int| 0 <= i < ts.len() && #[trigger] ts[i].subject == s)
}

/// The distinct predicates of the triples.
pub open spec fn predicate_set(ts: Seq<TripleView>) -> Set<Seq<char>> {
    Set::new(|p: Seq<char>| exists|i: int| 0 <= i < ts.len() && #[trigger] ts[i].predicate == p)
}

/// The triples that indexing an action adds: its type, sequence number,
/// previous action and entry hash (where present), author and timestamp,
/// all about `action:<hex of the action hash>`.
pub open spec fn action_triples(a: Action) -> Seq<TripleView> {
    let h = blake3_digest(action_bytes(a));
    let subj = "action:"@ + hex_encode(h);
    let src = Some(h);
    let prev = match a.prev_action {
        Some(p) => seq![tv(subj, "aingle:prevAction"@, ObjectView::Hash(p.0@), src)],
        None => Seq::empty(),
    };
    let entry = match a.entry_hash {
        Some(e) => seq![tv(subj, "aingle:entryHash"@, ObjectView::Hash(e.0@), src)],
        None => Seq::empty(),
    };
    seq![
        tv(subj, "rdf:type"@, ObjectView::Literal(a.action_type.spec_name()), src),
        tv(subj, "aingle:seq"@, ObjectView::Integer(a.seq as i64), src),
    ] + prev + entry + seq![
        tv(subj, "aingle:author"@, ObjectView::Literal(hex_encode(a.author.0@)), src),
        tv(subj, "aingle:timestamp"@, ObjectView::Integer(a.timestamp.0 as i64), src),
    ]
}

/// The action hash and subject the triples of an action are about.
pub open spec fn action_subject(a: Action) -> Seq<char> {
    "action:"@ + hex_encode(blake3_digest(action_bytes(a)))
}

/// Indexing an action adds one triple per field, each about the action
/// (subject `action:<hex of its hash>`, source its hash) and carrying the
/// field its predicate names: `rdf:type` its type name, `aingle:seq` its
/// sequence number, `aingle:prevAction` and `aingle:entryHash` the hashes
/// it has, `aingle:author` the hex of its author key and `aingle:timestamp`
/// its timestamp; there are four triples, and one more for each hash.
pub proof fn lemma_action_triples(a: Action)
    ensures
        action_triples(a).len() == 4 + (if a.prev_action is Some { 1int } else { 0int }) + (if a.entry_hash is Some {
            1int
        } else {
            0int
        }),
        forall|i: int| 0 <= i < action_triples(a).len() ==> (#[trigger] action_triples(a)[i]).subject == action_subject(a)
            && action_triples(a)[i].source == Some(blake3_digest(action_bytes(a))),
        forall|i: int| 0 <= i < action_triples(a).len() && (#[trigger] action_triples(a)[i]).predicate == "aingle:timestamp"@
            ==> action_triples(a)[i].object == ObjectView::Integer(a.timestamp.0 as i64),
        forall|i: int| 0 <= i < action_triples(a).len() && (#[trigger] action_triples(a)[i]).predicate == "aingle:seq"@
            ==> action_triples(a)[i].object == ObjectView::Integer(a.seq as i64),
        forall|i: int| 0 <= i < action_triples(a).len() && (#[trigger] action_triples(a)[i]).predicate == "rdf:type"@
            ==> action_triples(a)[i].object == ObjectView::Literal(a.action_type.spec_name()),
        forall|i: int| 0 <= i < action_triples(a).len() && (#[trigger] action_triples(a)[i]).predicate == "aingle:author"@
            ==> action_triples(a)[i].object == ObjectView::Literal(hex_encode(a.author.0@)),
        forall|i: int| 0 <= i < action_triples(a).len() && (#[trigger] action_triples(a)[i]).predicate
            == "aingle:prevAction"@ ==> (a.prev_action matches Some(p) && action_triples(a)[i].object == ObjectView::Hash(
            p.0@,
        )),
        forall|i: int| 0 <= i < action_triples(a).len() && (#[trigger] action_triples(a)[i]).predicate
            == "aingle:entryHash"@ ==> (a.entry_hash matches Some(e) && action_triples(a)[i].object == ObjectView::Hash(
            e.0@,
        )),
        exists|i: int| 0 <= i < action_triples(a).len() && (#[trigger] action_triples(a)[i]).predicate == "aingle:timestamp"@,
        exists|i: int| 0 <= i < action_triples(a).len() && (#[trigger] action_triples(a)[i]).predicate == "aingle:seq"@,
        exists|i: int| 0 <= i < action_triples(a).len() && (#[trigger] action_triples(a)[i]).predicate == "rdf:type"@,
        exists|i: int| 0 <= i < action_triples(a).len() && (#[trigger] action_triples(a)[i]).predicate == "aingle:author"@,
        a.prev_action is Some ==> exists|i: int| 0 <= i < action_triples(a).len() && (#[trigger] action_triples(a)[i]).predicate
            == "aingle:prevAction"@,
        a.entry_hash is Some ==> exists|i: int| 0 <= i < action_triples(a).len() && (#[trigger] action_triples(a)[i]).predicate
            == "aingle:entryHash"@,
{
    reveal_strlit("aingle:timestamp");
    reveal_strlit("aingle:seq");
    reveal_strlit("rdf:type");
    reveal_strlit("aingle:author");
    reveal_strlit("aingle:prevAction");
    reveal_strlit("aingle:entryHash");
    let ts = action_triples(a);
    let n = ts.len() as int;
    let h = blake3_digest(action_bytes(a));
    let subj = action_subject(a);
    let src = Some(h);
    let ty = tv(subj, "rdf:type"@, ObjectView::Literal(a.action_type.spec_name()), src);
    let sq = tv(subj, "aingle:seq"@, ObjectView::Integer(a.seq as i64), src);
    let au = tv(subj, "aingle:author"@, ObjectView::Literal(hex_encode(a.author.0@)), src);
    let tm = tv(subj, "aingle:timestamp"@, ObjectView::Integer(a.timestamp.0 as i64), src);
    assert("aingle:timestamp"@[7] != "aingle:entryHash"@[7]);
    let mid: Seq<TripleView> = match (a.prev_action, a.entry_hash) {
        (Some(p), Some(e)) => seq![
            tv(subj, "aingle:prevAction"@, ObjectView::Hash(p.0@), src),
            tv(subj, "aingle:entryHash"@, ObjectView::Hash(e.0@), src),
        ],
        (Some(p), None) => seq![tv(subj, "aingle:prevAction"@, ObjectView::Hash(p.0@), src)],
        (None, Some(e)) => seq![tv(subj, "aingle:entryHash"@, ObjectView::Hash(e.0@), src)],
        (None, None) => Seq::empty(),
    };
    assert(ts =~= seq![ty, sq] + mid + seq![au, tm]);
    assert(ts[0] == ty);
    assert(ts[1] == sq);
    assert(ts[n - 2] == au);
    assert(ts[n - 1] == tm);
    assert forall|i: int| 2 <= i < n - 2 implies (#[trigger] ts[i]) == mid[i - 2] by {}
    assert("aingle:seq"@.len() == 10 && "rdf:type"@.len() == 8 && "aingle:author"@.len() == 13);
    assert("aingle:timestamp"@.len() == 16 && "aingle:prevAction"@.len() == 17 && "aingle:entryHash"@.len() == 16);
    assert forall|i: int| 0 <= i < n && (#[trigger] ts[i]).predicate == "aingle:seq"@ implies ts[i].object
        == ObjectView::Integer(a.seq as i64) by {
        if 2 <= i < n - 2 {
            assert(ts[i] == mid[i - 2]);
        }
    }
    assert forall|i: int| 0 <= i < n && (#[trigger] ts[i]).predicate == "rdf:type"@ implies ts[i].object
        == ObjectView::Literal(a.action_type.spec_name()) by {
        if 2 <= i < n - 2 {
            assert(ts[i] == mid[i - 2]);
        }
    }
    match a.prev_action {
        Some(p) => {
            assert(ts[2].predicate == "aingle:prevAction"@);
        },
        None => {},
    }
    match a.entry_hash {
        Some(e) => {
            let k = if a.prev_action is Some { 3int } else { 2int };
            assert(ts[k].predicate == "aingle:entryHash"@);
        },
        None => {},
    }
}

/// The triples that indexing an entry adds: its type and content hash,
/// about `entry:<hex of the entry hash>`.
pub open spec fn entry_triples(e: Entry) -> Seq<TripleView> {
    let h = blake3_digest(entry_bytes(e));
    let subj = "entry:"@ + hex_encode(h);
    seq![
        tv(subj, "rdf:type"@, ObjectView::Literal(e.entry_type.spec_name()), Some(h)),
        tv(subj, "aingle:contentHash"@, ObjectView::Hash(h), Some(h)),
    ]
}

/// The triple that indexing a link adds: `entry:<base>` `link:<type>` `entry:<target>`.
pub open spec fn link_triples(l: Link) -> Seq<TripleView> {
    seq![
        tv(
            "entry:"@ + hex_encode(l.base.0@),
            "link:"@ + decimal(l.link_type as nat),
            ObjectView::Reference("entry:"@ + hex_encode(l.target.0@)),
            None,
        ),
    ]
}

/// The triples that indexing a record adds: its action's, then its entry's.
pub open spec fn record_triples(r: Record) -> Seq<TripleView> {
    action_triples(r.action) + match r.entry {
        Some(e) => entry_triples(e),
        None => Seq::empty(),
    }
}

/// Indexing an entry adds two triples about `entry:<hex of its hash>`, with
/// its hash as source: `rdf:type` with its type name and
/// `aingle:contentHash` with its hash.
pub proof fn lemma_entry_triples(e: Entry)
    ensures
        entry_triples(e).len() == 2,
        entry_triples(e)[0] == tv(
            "entry:"@ + hex_encode(blake3_digest(entry_bytes(e))),
            "rdf:type"@,
            ObjectView::Literal(e.entry_type.spec_name()),
            Some(blake3_digest(entry_bytes(e))),
        ),
        entry_triples(e)[1] == tv(
            "entry:"@ + hex_encode(blake3_digest(entry_bytes(e))),
            "aingle:contentHash"@,
            ObjectView::Hash(blake3_digest(entry_bytes(e))),
            Some(blake3_digest(entry_bytes(e))),
        ),
{
}

/// Indexing a link adds one triple: from its base entry, with predicate
/// `link:<type>`, to a reference to its target entry, with no source.
pub proof fn lemma_link_triples(l: Link)
    ensures
        link_triples(l).len() == 1,
        link_triples(l)[0].subject == "entry:"@ + hex_encode(l.base.0@),
        link_triples(l)[0].predicate == "link:"@ + decimal(l.link_type as nat),
        link_triples(l)[0].object == ObjectView::Reference("entry:"@ + hex_encode(l.target.0@)),
        link_triples(l)[0].source is None,
{
}

/// Indexing a record adds its action's triples, then its entry's, if it
/// has one.
pub proof fn lemma_record_triples(r: Record)
    ensures
        r.entry is None ==> record_triples(r) == action_triples(r.action),
        r.entry matches Some(e) ==> record_triples(r) == action_triples(r.action) + entry_triples(e),
{
    if r.entry is None {
        assert(record_triples(r) =~= action_triples(r.action));
    }
}

fn contains_name(names: &Vec<String>, s: &str) -> (r: bool)
    ensures
        r == names@.map_values(|n: String| n@).contains(s@),
{
    let ghost nv = names@.map_values(|n: String| n@);
    let mut i: usize = 0;
    while i < names.len()
        invariant
            i <= names@.len(),
            nv == names@.map_values(|n: String| n@),
            forall|j: int| 0 <= j < i ==> nv[j] != s@,
        decreases names@.len() - i,
    {
        if str_eq(names[i].as_str(), s) {
            proof {
                assert(nv[i as int] == s@);
            }
            return true;
        }
        i = i + 1;
    }
    false
}

/// Semantic graph view of node data.
pub struct SemanticGraph {
    triples: Vec<SemanticTriple>,
    subjects: Vec<String>,
    predicates: Vec<String>,
}

impl View for SemanticGraph {
    type V = Seq<TripleView>;

    closed spec fn view(&self) -> Seq<TripleView> {
        views(self.triples@)
    }
}

/// Graph statistics.
#[derive(Debug, Clone)]
pub struct GraphStats {
    /// Total number of triples.
    pub triple_count: usize,
    /// Number of unique subjects.
    pub subject_count: usize,
    /// Number of unique predicates.
    pub predicate_count: usize,
}

impl SemanticGraph {
    /// The graph's invariant: the subject and predicate lists hold each
    /// distinct subject and predicate of the triples exactly once.
    pub closed spec fn wf(&self) -> bool {
        &&& self.subjects@.map_values(|n: String| n@).no_duplicates()
        &&& self.subjects@.map_values(|n: String| n@).to_set() == subject_set(self@)
        &&& self.predicates@.map_values(|n: String| n@).no_duplicates()
        &&& self.predicates@.map_values(|n: String| n@).to_set() == predicate_set(self@)
    }

    /// Create a new empty semantic graph.
    pub fn new() -> (g: Self)
        ensures
            g.wf(),
            g@ == Seq::<TripleView>::empty(),
    {
        let g = SemanticGraph { triples: Vec::new(), subjects: Vec::new(), predicates: Vec::new() };
        proof {
            assert(g@ =~= Seq::<TripleView>::empty());
            assert(g.subjects@.map_values(|n: String| n@).to_set() =~= subject_set(g@));
            assert(g.predicates@.map_values(|n: String| n@).to_set() =~= predicate_set(g@));
        }
        g
    }

    proof fn lemma_name_added(names: Seq<String>, new_names: Seq<String>, s: Seq<char>, was: bool)
        requires
            names.map_values(|n: String| n@).no_duplicates(),
            was == names.map_values(|n: String| n@).contains(s),
            was ==> new_names == names,
            !was ==> new_names.len() == names.len() + 1 && new_names.drop_last() == names && new_names.last()@ == s,
        ensures
            new_names.map_values(|n: String| n@).no_duplicates(),
            new_names.map_values(|n: String| n@).to_set() == names.map_values(|n: String| n@).to_set().insert(s),
    {
        let old_v = names.map_values(|n: String| n@);
        let new_v = new_names.map_values(|n: String| n@);
        if was {
            assert(new_v.to_set() =~= old_v.to_set().insert(s));
        } else {
            assert(new_v =~= old_v.push(s));
            assert forall|i: int, j: int| 0 <= i < new_v.len() && 0 <= j < new_v.len() && i != j implies new_v[i] != new_v[j] by {
                if i < old_v.len() && j < old_v.len() {
                } else if i == old_v.len() {
                    assert(!old_v.contains(s));
                    assert(new_v[j] == old_v[j]);
                } else {
                    assert(!old_v.contains(s));
                    assert(new_v[i] == old_v[i]);
                }
            }
            assert forall|x: Seq<char>| new_v.to_set().contains(x) <==> old_v.to_set().insert(s).contains(x) by {
                if new_v.contains(x) {
                    let k = choose|k: int| 0 <= k < new_v.len() && new_v[k] == x;
                    if k < old_v.len() {
                        assert(old_v[k] == x);
                    }
                }
                if old_v.contains(x) {
                    let k = choose|k: int| 0 <= k < old_v.len() && old_v[k] == x;
                    assert(new_v[k] == x);
                }
                if x == s {
                    assert(new_v[old_v.len() as int] == x);
                }
            }
            assert(new_v.to_set() =~= old_v.to_set().insert(s));
        }
    }

    /// Add one triple, keeping the subject and predicate lists.
    fn insert(&mut self, t: SemanticTriple)
        requires
            old(self).wf(),
        ensures
            final(self).wf(),
            final(self)@ == old(self)@.push(t@),
    {
        let ghost old_view = self@;
        let ghost tview = t@;
        let has_subject = contains_name(&self.subjects, t.subject.as_str());
        let ghost old_subjects = self.subjects@;
        if !has_subject {
            self.subjects.push(t.subject.clone());
            proof {
                assert(self.subjects@.drop_last() =~= old_subjects);
            }
        }
        proof {
            Self::lemma_name_added(old_subjects, self.subjects@, tview.subject, has_subject);
        }
        let has_predicate = contains_name(&self.predicates, t.predicate.as_str());
        let ghost old_predicates = self.predicates@;
        if !has_predicate {
            self.predicates.push(t.predicate.clone());
            proof {
                assert(self.predicates@.drop_last() =~= old_predicates);
            }
        }
        proof {
            Self::lemma_name_added(old_predicates, self.predicates@, tview.predicate, has_predicate);
        }
        self.triples.push(t);
        proof {
            let nv = self@;
            assert(nv =~= old_view.push(tview));
            assert forall|x: Seq<char>| subject_set(nv).contains(x) <==> subject_set(old_view).insert(tview.subject).contains(x) by {
                if subject_set(nv).contains(x) {
                    let k = choose|k: int| 0 <= k < nv.len() && nv[k].subject == x;
                    if k < old_view.len() {
                        assert(old_view[k].subject == x);
                    }
                }
                if subject_set(old_view).contains(x) {
                    let k = choose|k: int| 0 <= k < old_view.len() && old_view[k].subject == x;
                    assert(nv[k].subject == x);
                }
                if x == tview.subject {
                    assert(nv[old_view.len() as int].subject == x);
                }
            }
            assert(subject_set(nv) =~= subject_set(old_view).insert(tview.subject));
            assert forall|x: Seq<char>| predicate_set(nv).contains(x) <==> predicate_set(old_view).insert(tview.predicate).contains(x) by {
                if predicate_set(nv).contains(x) {
                    let k = choose|k: int| 0 <= k < nv.len() && nv[k].predicate == x;
                    if k < old_view.len() {
                        assert(old_view[k].predicate == x);
                    }
                }
                if predicate_set(old_view).contains(x) {
                    let k = choose|k: int| 0 <= k < old_view.len() && old_view[k].predicate == x;
                    assert(nv[k].predicate == x);
                }
                if x == tview.predicate {
                    assert(nv[old_view.len() as int].predicate == x);
                }
            }
            assert(predicate_set(nv) =~= predicate_set(old_view).insert(tview.predicate));
        }
    }

    fn subject_string(prefix: &str, bytes: &[u8]) -> (s: String)
        ensures
            s@ == prefix@ + hex_encode(bytes@),
    {
        let mut s = String::new();
        append_str(&mut s, prefix);
        let hex = crate::ota::hex::encode(bytes);
        append_str(&mut s, hex.as_str());
        proof {
            assert(s@ =~= prefix@ + hex_encode(bytes@));
        }
        s
    }

    fn triple(subject: &String, predicate: &str, object: TripleObject, source: Option<crate::types::Hash>) -> (t: SemanticTriple)
        ensures
            t@ == tv(subject@, predicate@, object@, opt_hash_view(source)),
    {
        SemanticTriple { subject: subject.clone(), predicate: predicate.to_owned(), object, source_hash: source }
    }

    /// Index an action as semantic triples (see `action_triples`).
    pub fn index_action(&mut self, action: &Action) -> (r: Result<(), Error>)
        requires
            old(self).wf(),
        ensures
            r is Ok,
            final(self).wf(),
            final(self)@ == old(self)@ + action_triples(*action),
    {
        let action_hash = action.hash();
        let subject = Self::subject_string("action:", action_hash.0.as_slice());
        let src = Some(action_hash);
        let ghost h = action_hash.0@;
        let ghost subj = subject@;
        let ghost start = self@;

        self.insert(Self::triple(&subject, "rdf:type", TripleObject::Literal(action.action_type.name().to_owned()), src));
        self.insert(Self::triple(&subject, "aingle:seq", TripleObject::Integer(action.seq as i64), src));
        let ghost after_base = self@;
        if let Some(prev) = &action.prev_action {
            self.insert(Self::triple(&subject, "aingle:prevAction", TripleObject::Hash(*prev), src));
        }
        let ghost after_prev = self@;
        if let Some(entry_hash) = &action.entry_hash {
            self.insert(Self::triple(&subject, "aingle:entryHash", TripleObject::Hash(*entry_hash), src));
        }
        let ghost after_entry = self@;
        let author = action.author.to_hex();
        self.insert(Self::triple(&subject, "aingle:author", TripleObject::Literal(author), src));
        self.insert(Self::triple(&subject, "aingle:timestamp", TripleObject::Integer(action.timestamp.0 as i64), src));
        proof {
            reveal_strlit("action:");
            reveal_strlit("rdf:type");
            reveal_strlit("aingle:seq");
            reveal_strlit("aingle:prevAction");
            reveal_strlit("aingle:entryHash");
            reveal_strlit("aingle:author");
            reveal_strlit("aingle:timestamp");
            assert(self@ =~= start + action_triples(*action));
        }
        Ok(())
    }

    /// Index an entry as semantic triples (see `entry_triples`).
    pub fn index_entry(&mut self, entry: &Entry) -> (r: Result<(), Error>)
        requires
            old(self).wf(),
        ensures
            r is Ok,
            final(self).wf(),
            final(self)@ == old(self)@ + entry_triples(*entry),
    {
        let entry_hash = entry.hash();
        let subject = Self::subject_string("entry:", entry_hash.0.as_slice());
        let ghost start = self@;
        self.insert(Self::triple(&subject, "rdf:type", TripleObject::Literal(entry.entry_type.name().to_owned()), Some(entry_hash)));
        self.insert(Self::triple(&subject, "aingle:contentHash", TripleObject::Hash(entry_hash), Some(entry_hash)));
        proof {
            reveal_strlit("entry:");
            reveal_strlit("rdf:type");
            reveal_strlit("aingle:contentHash");
            assert(self@ =~= start + entry_triples(*entry));
        }
        Ok(())
    }

    /// Index a link as a semantic triple (see `link_triples`).
    pub fn index_link(&mut self, link: &Link) -> (r: Result<(), Error>)
        requires
            old(self).wf(),
        ensures
            r is Ok,
            final(self).wf(),
            final(self)@ == old(self)@ + link_triples(*link),
    {
        let base_subject = Self::subject_string("entry:", link.base.0.as_slice());
        let target = Self::subject_string("entry:", link.target.0.as_slice());
        let mut predicate = String::new();
        append_str(&mut predicate, "link:");
        append_decimal(&mut predicate, link.link_type as u64);
        let ghost start = self@;
        self.insert(SemanticTriple {
            subject: base_subject,
            predicate,
            object: TripleObject::Reference(target),
            source_hash: None,
        });
        proof {
            reveal_strlit("entry:");
            reveal_strlit("link:");
            assert(self@ =~= start + link_triples(*link));
        }
        Ok(())
    }

    /// Index a full record: its action, then its entry if it has one.
    pub fn index_record(&mut self, record: &Record) -> (r: Result<(), Error>)
        requires
            old(self).wf(),
        ensures
            r is Ok,
            final(self).wf(),
            final(self)@ == old(self)@ + record_triples(*record),
    {
        let ghost start = self@;
        let _ = self.index_action(&record.action);
        if let Some(entry) = &record.entry {
            let _ = self.index_entry(entry);
        }
        proof {
            assert(self@ =~= start + record_triples(*record));
        }
        Ok(())
    }

    /// Start building a query over the graph.
    pub fn query(&self) -> (q: SemanticQuery<'_>)
        ensures
            q.spec_graph() == self,
            q.spec_subject() is None,
            q.spec_predicate() is None,
            q.spec_object() is None,
            q.spec_limit() is None,
    {
        SemanticQuery::new(self)
    }

    fn select_where(&self, subject: Option<&str>, predicate: Option<&str>) -> (r: Vec<SemanticTriple>)
        ensures
            views(r@) == select(self@, where_filter(
                match subject { Some(s) => Some(s@), None => None },
                match predicate { Some(p) => Some(p@), None => None },
            )),
    {
        let ghost sv = match subject { Some(s) => Some(s@), None => None };
        let ghost pv = match predicate { Some(p) => Some(p@), None => None };
        let mut out: Vec<SemanticTriple> = Vec::new();
        let mut i: usize = 0;
        while i < self.triples.len()
            invariant
                i <= self.triples@.len(),
                views(out@) == select(views(self.triples@.subrange(0, i as int)), where_filter(sv, pv)),
                sv == match subject { Some(s) => Some(s@), None => None },
                pv == match predicate { Some(p) => Some(p@), None => None },
            decreases self.triples@.len() - i,
        {
            let t = &self.triples[i];
            let ok_s = match subject {
                Some(s) => str_eq(t.subject.as_str(), s),
                None => true,
            };
            let ok_p = match predicate {
                Some(p) => str_eq(t.predicate.as_str(), p),
                None => true,
            };
            let ghost before = out@;
            if ok_s && ok_p {
                out.push(t.copy());
            }
            proof {
                let pre = views(self.triples@.subrange(0, i as int + 1));
                assert(pre.drop_last() =~= views(self.triples@.subrange(0, i as int)));
                assert(pre.last() == t@);
                assert(where_filter(sv, pv)(t@) == (ok_s && ok_p));
                if ok_s && ok_p {
                    assert(views(out@) =~= views(before).push(t@));
                } else {
                    assert(out@ == before);
                }
            }
            i = i + 1;
        }
        proof {
            assert(self.triples@.subrange(0, self.triples@.len() as int) =~= self.triples@);
        }
        out
    }

    /// Find all triples for a subject, in insertion order.
    pub fn get_subject(&self, subject: &str) -> (r: Result<Vec<SemanticTriple>, Error>)
        ensures
            r matches Ok(v) && views(v@) == select(self@, |t: TripleView| t.subject == subject@),
    {
        let v = self.select_where(Some(subject), None);
        proof {
            let f2 = |t: TripleView| t.subject == subject@;
            assert(where_filter(Some(subject@), None) =~= f2);
        }
        Ok(v)
    }

    /// Find all triples with a predicate, in insertion order.
    pub fn get_predicate(&self, predicate: &str) -> (r: Result<Vec<SemanticTriple>, Error>)
        ensures
            r matches Ok(v) && views(v@) == select(self@, |t: TripleView| t.predicate == predicate@),
    {
        let v = self.select_where(None, Some(predicate));
        proof {
            let f2 = |t: TripleView| t.predicate == predicate@;
            assert(where_filter(None, Some(predicate@)) =~= f2);
        }
        Ok(v)
    }

    /// Get graph statistics: the number of triples, of distinct subjects and
    /// of distinct predicates.
    pub fn stats(&self) -> (r: Result<GraphStats, Error>)
        requires
            self.wf(),
        ensures
            r matches Ok(s) && s.triple_count == self@.len() && s.subject_count == subject_set(self@).len()
                && s.predicate_count == predicate_set(self@).len(),
    {
        proof {
            self.subjects@.map_values(|n: String| n@).unique_seq_to_set();
            self.predicates@.map_values(|n: String| n@).unique_seq_to_set();
        }
        Ok(GraphStats {
            triple_count: self.triples.len(),
            subject_count: self.subjects.len(),
            predicate_count: self.predicates.len(),
        })
    }
}

/// The node a triple's object leads to, if it is a reference or a hash
/// (a hash `h` leads to the node `hash:` followed by the hex of `h`).
pub open spec fn target_of(o: ObjectView) -> Option<Seq<char>> {
    match o {
        ObjectView::Reference(s) => Some(s),
        ObjectView::Hash(b) => Some("hash:"@ + hex_encode(b)),
        _ => None,
    }
}

/// Whether an edge with predicate `p` is followed: every edge when no
/// predicate is given, else only those whose predicate is listed.
pub open spec fn follows(preds: Seq<Seq<char>>, p: Seq<char>) -> bool {
    preds.len() == 0 || preds.contains(p)
}

/// Whether the triple `t` is an edge from `cur` that is followed.
pub open spec fn is_edge(t: TripleView, cur: Seq<char>, preds: Seq<Seq<char>>) -> bool {
    t.subject == cur && follows(preds, t.predicate) && target_of(t.object) is Some
}

/// The nodes that the followed edges from `cur` lead to, in the order of
/// the triples.
pub open spec fn edge_targets(g: Seq<TripleView>, cur: Seq<char>, preds: Seq<Seq<char>>) -> Seq<Seq<char>>
    decreases g.len(),
{
    if g.len() == 0 {
        Seq::empty()
    } else {
        let rest = edge_targets(g.drop_last(), cur, preds);
        if is_edge(g.last(), cur, preds) {
            rest.push(target_of(g.last().object)->0)
        } else {
            rest
        }
    }
}

/// Every node that some triple of `g` leads to, in the order of the triples.
pub open spec fn all_targets(g: Seq<TripleView>) -> Seq<Seq<char>>
    decreases g.len(),
{
    if g.len() == 0 {
        Seq::empty()
    } else {
        match target_of(g.last().object) {
            Some(x) => all_targets(g.drop_last()).push(x),
            None => all_targets(g.drop_last()),
        }
    }
}

/// The nodes a traversal of `g` from `start` can visit.
pub open spec fn reachable_nodes(g: Seq<TripleView>, start: Seq<char>) -> Set<Seq<char>> {
    all_targets(g).to_set().insert(start)
}

/// Whether every node on the stack is one of `nodes`.
pub open spec fn stack_within(stack: Seq<(Seq<char>, nat)>, nodes: Set<Seq<char>>) -> bool {
    forall|i: int| 0 <= i < stack.len() ==> nodes.contains(#[trigger] stack[i].0)
}

/// The pairs pushed for the targets `ts` reached at depth `d`.
pub open spec fn at_depth(ts: Seq<Seq<char>>, d: nat) -> Seq<(Seq<char>, nat)> {
    ts.map_values(|t: Seq<char>| (t, d))
}

/// What a depth-first traversal reports, from a stack of (node, depth)
/// pairs and a set of visited nodes: the top of the stack is popped; a node
/// at depth `max_depth` or deeper, or already visited, is skipped; otherwise it is
/// visited, and the nodes its followed edges lead to are reported, in the
/// order of the triples, and pushed at one more depth.
pub open spec fn dfs(
    g: Seq<TripleView>,
    preds: Seq<Seq<char>>,
    max_depth: nat,
    stack: Seq<(Seq<char>, nat)>,
    visited: Set<Seq<char>>,
    nodes: Set<Seq<char>>,
) -> Seq<Seq<char>>
    decreases nodes.difference(visited).len(), stack.len(),
    when nodes.finite() && all_targets(g).to_set().subset_of(nodes) && stack_within(stack, nodes)
{
    if stack.len() == 0 {
        Seq::empty()
    } else {
        let cur = stack.last().0;
        let d = stack.last().1;
        let rest = stack.drop_last();
        if d >= max_depth || visited.contains(cur) {
            dfs(g, preds, max_depth, rest, visited, nodes)
        } else {
            let out = edge_targets(g, cur, preds);
            proof {
                lemma_visit_shrinks(nodes, visited, cur);
                lemma_edge_targets_within(g, cur, preds);
                assert forall|i: int| 0 <= i < (rest + at_depth(out, d + 1)).len() implies nodes.contains(
                    #[trigger] (rest + at_depth(out, d + 1))[i].0,
                ) by {
                    if i >= rest.len() {
                        assert(all_targets(g).to_set().contains(out[i - rest.len()]));
                    }
                }
            }
            out + dfs(g, preds, max_depth, rest + at_depth(out, d + 1), visited.insert(cur), nodes)
        }
    }
}

/// Visiting a node not yet visited leaves one fewer node unvisited.
pub proof fn lemma_visit_shrinks(nodes: Set<Seq<char>>, visited: Set<Seq<char>>, cur: Seq<char>)
    requires
        nodes.finite(),
        nodes.contains(cur),
        !visited.contains(cur),
    ensures
        nodes.difference(visited.insert(cur)).len() < nodes.difference(visited).len(),
{
    assert(nodes.difference(visited.insert(cur)) =~= nodes.difference(visited).remove(cur));
}

/// Every node an edge leads to is a target of the graph.
pub proof fn lemma_edge_targets_within(g: Seq<TripleView>, cur: Seq<char>, preds: Seq<Seq<char>>)
    ensures
        forall|i: int| 0 <= i < edge_targets(g, cur, preds).len() ==> all_targets(g).to_set().contains(
            #[trigger] edge_targets(g, cur, preds)[i],
        ),
    decreases g.len(),
{
    if g.len() > 0 {
        lemma_edge_targets_within(g.drop_last(), cur, preds);
        let rest = edge_targets(g.drop_last(), cur, preds);
        let all_rest = all_targets(g.drop_last());
        assert forall|i: int| 0 <= i < edge_targets(g, cur, preds).len() implies all_targets(g).to_set().contains(
            #[trigger] edge_targets(g, cur, preds)[i],
        ) by {
            let x = edge_targets(g, cur, preds)[i];
            if i < rest.len() {
                assert(all_rest.to_set().contains(x));
                let j = choose|j: int| 0 <= j < all_rest.len() && all_rest[j] == x;
                match target_of(g.last().object) {
                    Some(y) => { assert(all_targets(g)[j] == x); },
                    None => { assert(all_targets(g)[j] == x); },
                }
            } else {
                assert(all_targets(g).last() == x);
            }
        }
    }
}

/// The number of triples of `g` whose subject is `cur`.
pub open spec fn subject_count(g: Seq<TripleView>, cur: Seq<char>) -> nat
    decreases g.len(),
{
    if g.len() == 0 {
        0
    } else {
        subject_count(g.drop_last(), cur) + if g.last().subject == cur { 1nat } else { 0nat }
    }
}

/// The number of triples of `g` whose subject is not in `visited`.
pub open spec fn unvisited_count(g: Seq<TripleView>, visited: Set<Seq<char>>) -> nat
    decreases g.len(),
{
    if g.len() == 0 {
        0
    } else {
        unvisited_count(g.drop_last(), visited) + if visited.contains(g.last().subject) { 0nat } else { 1nat }
    }
}

/// The followed edges from a node are at most the triples with it as subject.
proof fn lemma_edge_targets_count(g: Seq<TripleView>, cur: Seq<char>, preds: Seq<Seq<char>>)
    ensures
        edge_targets(g, cur, preds).len() <= subject_count(g, cur),
    decreases g.len(),
{
    if g.len() > 0 {
        lemma_edge_targets_count(g.drop_last(), cur, preds);
    }
}

/// Visiting a node moves its triples out of the unvisited ones.
proof fn lemma_unvisited_split(g: Seq<TripleView>, visited: Set<Seq<char>>, cur: Seq<char>)
    requires
        !visited.contains(cur),
    ensures
        unvisited_count(g, visited) == unvisited_count(g, visited.insert(cur)) + subject_count(g, cur),
    decreases g.len(),
{
    if g.len() > 0 {
        lemma_unvisited_split(g.drop_last(), visited, cur);
    }
}

/// With nothing visited, every triple is unvisited.
proof fn lemma_none_visited(g: Seq<TripleView>)
    ensures
        unvisited_count(g, Set::empty()) == g.len(),
    decreases g.len(),
{
    if g.len() > 0 {
        lemma_none_visited(g.drop_last());
    }
}

/// A traversal from a stack reports at most as many nodes as there are
/// triples whose subject is not yet visited.
proof fn lemma_dfs_len(
    g: Seq<TripleView>,
    preds: Seq<Seq<char>>,
    max_depth: nat,
    stack: Seq<(Seq<char>, nat)>,
    visited: Set<Seq<char>>,
    nodes: Set<Seq<char>>,
)
    requires
        nodes.finite(),
        all_targets(g).to_set().subset_of(nodes),
        stack_within(stack, nodes),
    ensures
        dfs(g, preds, max_depth, stack, visited, nodes).len() <= unvisited_count(g, visited),
    decreases nodes.difference(visited).len(), stack.len(),
{
    if stack.len() > 0 {
        let cur = stack.last().0;
        let d = stack.last().1;
        let rest = stack.drop_last();
        assert(stack_within(rest, nodes)) by {
            assert forall|i: int| 0 <= i < rest.len() implies nodes.contains(#[trigger] rest[i].0) by {
                assert(rest[i] == stack[i]);
            }
        }
        if d >= max_depth || visited.contains(cur) {
            lemma_dfs_len(g, preds, max_depth, rest, visited, nodes);
        } else {
            let out = edge_targets(g, cur, preds);
            let next = rest + at_depth(out, d + 1);
            assert(nodes.contains(cur));
            lemma_visit_shrinks(nodes, visited, cur);
            lemma_edge_targets_within(g, cur, preds);
            assert forall|i: int| 0 <= i < next.len() implies nodes.contains(#[trigger] next[i].0) by {
                if i >= rest.len() {
                    assert(all_targets(g).to_set().contains(out[i - rest.len()]));
                } else {
                    assert(next[i] == rest[i]);
                }
            }
            lemma_dfs_len(g, preds, max_depth, next, visited.insert(cur), nodes);
            lemma_edge_targets_count(g, cur, preds);
            lemma_unvisited_split(g, visited, cur);
        }
    }
}

/// A traversal reports at most as many nodes as the graph has triples: each
/// node is expanded at most once, and each of its edges reported once.
pub proof fn lemma_traverse_len(g: Seq<TripleView>, preds: Seq<Seq<char>>, max_depth: nat, start: Seq<char>)
    ensures
        dfs(g, preds, max_depth, seq![(start, 0nat)], Set::empty(), reachable_nodes(g, start)).len() <= g.len(),
{
    vstd::seq_lib::seq_to_set_is_finite(all_targets(g));
    let nodes = reachable_nodes(g, start);
    assert(stack_within(seq![(start, 0nat)], nodes));
    lemma_dfs_len(g, preds, max_depth, seq![(start, 0nat)], Set::empty(), nodes);
    lemma_none_visited(g);
}

/// Whether `x` is the node some triple of `g` with a followed predicate
/// leads to.
pub open spec fn followed_target(g: Seq<TripleView>, preds: Seq<Seq<char>>, x: Seq<char>) -> bool {
    exists|k: int| 0 <= k < g.len() && follows(preds, #[trigger] g[k].predicate) && target_of(g[k].object) == Some(x)
}

/// Every node a followed edge from `cur` leads to is a followed target.
proof fn lemma_edge_targets_followed(g: Seq<TripleView>, cur: Seq<char>, preds: Seq<Seq<char>>)
    ensures
        forall|i: int| 0 <= i < edge_targets(g, cur, preds).len() ==> followed_target(
            g,
            preds,
            #[trigger] edge_targets(g, cur, preds)[i],
        ),
    decreases g.len(),
{
    if g.len() > 0 {
        let prev = g.drop_last();
        lemma_edge_targets_followed(prev, cur, preds);
        let rest = edge_targets(prev, cur, preds);
        assert forall|i: int| 0 <= i < edge_targets(g, cur, preds).len() implies followed_target(
            g,
            preds,
            #[trigger] edge_targets(g, cur, preds)[i],
        ) by {
            let x = edge_targets(g, cur, preds)[i];
            if i < rest.len() {
                assert(x == rest[i]);
                assert(followed_target(prev, preds, x));
                let k = choose|k: int| 0 <= k < prev.len() && follows(preds, #[trigger] prev[k].predicate) && target_of(
                    prev[k].object,
                ) == Some(x);
                assert(g[k] == prev[k]);
            } else {
                let k = g.len() - 1;
                assert(follows(preds, g[k].predicate) && target_of(g[k].object) == Some(x));
            }
        }
    }
}

/// Every node a traversal from a stack reports is a followed target.
proof fn lemma_dfs_targets(
    g: Seq<TripleView>,
    preds: Seq<Seq<char>>,
    max_depth: nat,
    stack: Seq<(Seq<char>, nat)>,
    visited: Set<Seq<char>>,
    nodes: Set<Seq<char>>,
)
    requires
        nodes.finite(),
        all_targets(g).to_set().subset_of(nodes),
        stack_within(stack, nodes),
    ensures
        forall|i: int| 0 <= i < dfs(g, preds, max_depth, stack, visited, nodes).len() ==> followed_target(
            g,
            preds,
            #[trigger] dfs(g, preds, max_depth, stack, visited, nodes)[i],
        ),
    decreases nodes.difference(visited).len(), stack.len(),
{
    if stack.len() > 0 {
        let cur = stack.last().0;
        let d = stack.last().1;
        let rest = stack.drop_last();
        assert(stack_within(rest, nodes)) by {
            assert forall|i: int| 0 <= i < rest.len() implies nodes.contains(#[trigger] rest[i].0) by {
                assert(rest[i] == stack[i]);
            }
        }
        if d >= max_depth || visited.contains(cur) {
            lemma_dfs_targets(g, preds, max_depth, rest, visited, nodes);
            assert(dfs(g, preds, max_depth, stack, visited, nodes) == dfs(g, preds, max_depth, rest, visited, nodes));
        } else {
            let out = edge_targets(g, cur, preds);
            let next = rest + at_depth(out, d + 1);
            assert(nodes.contains(cur));
            lemma_visit_shrinks(nodes, visited, cur);
            lemma_edge_targets_within(g, cur, preds);
            assert forall|i: int| 0 <= i < next.len() implies nodes.contains(#[trigger] next[i].0) by {
                if i >= rest.len() {
                    assert(all_targets(g).to_set().contains(out[i - rest.len()]));
                } else {
                    assert(next[i] == rest[i]);
                }
            }
            lemma_dfs_targets(g, preds, max_depth, next, visited.insert(cur), nodes);
            lemma_edge_targets_followed(g, cur, preds);
            let tail = dfs(g, preds, max_depth, next, visited.insert(cur), nodes);
            let all = dfs(g, preds, max_depth, stack, visited, nodes);
            assert(all == out + tail);
            assert forall|i: int| 0 <= i < all.len() implies followed_target(g, preds, #[trigger] all[i]) by {
                if i < out.len() {
                    assert(all[i] == out[i]);
                } else {
                    assert(all[i] == tail[i - out.len()]);
                }
            }
        }
    }
}

/// Every node a traversal reports is where a triple with an allowed
/// predicate leads: its reference, or `hash:` and the hex of its hash.
pub proof fn lemma_traverse_targets(g: Seq<TripleView>, preds: Seq<Seq<char>>, max_depth: nat, start: Seq<char>)
    ensures
        forall|i: int| 0 <= i < dfs(g, preds, max_depth, seq![(start, 0nat)], Set::empty(), reachable_nodes(g, start)).len()
            ==> followed_target(
            g,
            preds,
            #[trigger] dfs(g, preds, max_depth, seq![(start, 0nat)], Set::empty(), reachable_nodes(g, start))[i],
        ),
{
    vstd::seq_lib::seq_to_set_is_finite(all_targets(g));
    let nodes = reachable_nodes(g, start);
    assert(stack_within(seq![(start, 0nat)], nodes));
    lemma_dfs_targets(g, preds, max_depth, seq![(start, 0nat)], Set::empty(), nodes);
}

/// A node some triple leads to is one of the graph's targets.
proof fn lemma_target_in_all(g: Seq<TripleView>, i: int, x: Seq<char>)
    requires
        0 <= i < g.len(),
        target_of(g[i].object) == Some(x),
    ensures
        all_targets(g).to_set().contains(x),
    decreases g.len(),
{
    if i == g.len() - 1 {
        assert(all_targets(g).last() == x);
    } else {
        lemma_target_in_all(g.drop_last(), i, x);
        let all_rest = all_targets(g.drop_last());
        let j = choose|j: int| 0 <= j < all_rest.len() && all_rest[j] == x;
        assert(all_targets(g)[j] == x);
    }
}

/// The abstract values of a list of predicate names.
pub open spec fn pred_views(preds: Seq<&str>) -> Seq<Seq<char>> {
    preds.map_values(|q: &str| q@)
}

/// The abstract values of a list of strings.
pub open spec fn names(v: Seq<String>) -> Seq<Seq<char>> {
    v.map_values(|s: String| s@)
}

/// The abstract value of a traversal stack.
pub open spec fn frontier_view(f: Seq<(String, usize)>) -> Seq<(Seq<char>, nat)> {
    f.map_values(|e: (String, usize)| (e.0@, e.1 as nat))
}

/// Whether `p` is one of `preds`.
fn listed(preds: &[&str], p: &str) -> (r: bool)
    ensures
        r == pred_views(preds@).contains(p@),
{
    let ghost pv = pred_views(preds@);
    let mut i: usize = 0;
    while i < preds.len()
        invariant
            i <= preds@.len(),
            pv == pred_views(preds@),
            forall|j: int| 0 <= j < i ==> pv[j] != p@,
        decreases preds@.len() - i,
    {
        if str_eq(preds[i], p) {
            proof {
                assert(pv[i as int] == p@);
            }
            return true;
        }
        i = i + 1;
    }
    false
}

/// The node a triple's object leads to, as a string.
fn target_node(o: &TripleObject) -> (r: Option<String>)
    ensures
        match r {
            Some(s) => target_of(o@) == Some(s@),
            None => target_of(o@) is None,
        },
{
    match o {
        TripleObject::Reference(s) => Some(s.clone()),
        TripleObject::Hash(h) => {
            let mut s = String::new();
            append_str(&mut s, "hash:");
            let hx = h.to_hex();
            append_str(&mut s, hx.as_str());
            proof {
                assert(s@ =~= "hash:"@ + hex_encode(h.0@));
            }
            Some(s)
        },
        _ => None,
    }
}

impl SemanticGraph {
    /// Traverse the graph along references from `start`, depth first.
    ///
    /// Only edges whose predicate is listed are followed (every edge when
    /// the list is empty), nodes at depth `max_depth` or deeper are not
    /// expanded (so a depth of 1 reports only the start's own targets),
    /// and each node is expanded at most once. The result lists every node
    /// an expanded edge leads to, in the order reached, repeats included.
    pub fn traverse(&self, start: &str, predicates: &[&str], max_depth: usize) -> (r: Result<Vec<String>, Error>)
        ensures
            r matches Ok(v) && names(v@) == dfs(
                self@,
                pred_views(predicates@),
                max_depth as nat,
                seq![(start@, 0nat)],
                Set::empty(),
                reachable_nodes(self@, start@),
            ),
    {
        let ghost g = self@;
        let ghost pv = pred_views(predicates@);
        let ghost nodes = reachable_nodes(g, start@);
        let ghost total = dfs(g, pv, max_depth as nat, seq![(start@, 0nat)], Set::empty(), nodes);
        proof {
            vstd::seq_lib::seq_to_set_is_finite(all_targets(g));
        }
        let mut visited: Vec<String> = Vec::new();
        let mut result: Vec<String> = Vec::new();
        let mut frontier: Vec<(String, usize)> = Vec::new();
        frontier.push((start.to_owned(), 0));
        proof {
            assert(frontier_view(frontier@) =~= seq![(start@, 0nat)]);
            assert(names(visited@).to_set() =~= Set::<Seq<char>>::empty());
            assert(names(result@) + total =~= total);
        }
        while frontier.len() > 0
            invariant
                g == self@,
                pv == pred_views(predicates@),
                nodes == reachable_nodes(g, start@),
                nodes.finite(),
                all_targets(g).to_set().subset_of(nodes),
                stack_within(frontier_view(frontier@), nodes),
                forall|k: int| 0 <= k < frontier@.len() ==> #[trigger] frontier@[k].1 <= visited@.len(),
                names(result@) + dfs(g, pv, max_depth as nat, frontier_view(frontier@), names(visited@).to_set(), nodes)
                    == total,
            decreases nodes.difference(names(visited@).to_set()).len(), frontier@.len(),
        {
            let ghost vset = names(visited@).to_set();
            let ghost fv = frontier_view(frontier@);
            let ghost old_frontier = frontier@;
            let (current, depth) = frontier.pop().unwrap();
            proof {
                assert(frontier_view(frontier@) =~= fv.drop_last());
                assert(fv.last() == (current@, depth as nat));
                assert(stack_within(fv.drop_last(), nodes));
                assert forall|k: int| 0 <= k < frontier@.len() implies #[trigger] frontier@[k].1 <= visited@.len() by {
                    assert(frontier@[k] == old_frontier[k]);
                }
            }
            if depth >= max_depth || contains_name(&visited, current.as_str()) {
                proof {
                    assert(names(visited@).contains(current@) == vset.contains(current@));
                }
                continue;
            }
            proof {
                assert(nodes.contains(current@));
                assert(!vset.contains(current@));
                lemma_visit_shrinks(nodes, vset, current@);
            }
            let ghost old_visited = visited@;
            proof {
                assert(old_frontier[old_frontier.len() - 1].1 <= old_visited.len());
            }
            visited.push(current.clone());
            proof {
                assert(names(visited@) =~= names(old_visited).push(current@));
                names(old_visited).lemma_push_to_set_commute(current@);
                assert(visited.len() == visited@.len());
            }
            let next_depth = depth + 1;
            let ghost rest = frontier_view(frontier@);
            let ghost result_before = names(result@);
            let ghost out = edge_targets(g, current@, pv);
            let mut i: usize = 0;
            proof {
                assert(g.subrange(0, 0) =~= Seq::<TripleView>::empty());
                assert(names(result@) =~= result_before + edge_targets(g.subrange(0, 0), current@, pv));
                assert(frontier_view(frontier@) =~= rest + at_depth(edge_targets(g.subrange(0, 0), current@, pv), next_depth as nat));
            }
            while i < self.triples.len()
                invariant
                    g == self@,
                    pv == pred_views(predicates@),
                    i <= g.len(),
                    nodes.finite(),
                    all_targets(g).to_set().subset_of(nodes),
                    stack_within(rest, nodes),
                    next_depth == depth + 1,
                    next_depth <= visited@.len(),
                    forall|k: int| 0 <= k < frontier@.len() ==> #[trigger] frontier@[k].1 <= visited@.len(),
                    names(result@) == result_before + edge_targets(g.subrange(0, i as int), current@, pv),
                    frontier_view(frontier@) == rest + at_depth(edge_targets(g.subrange(0, i as int), current@, pv), next_depth as nat),
                decreases self.triples@.len() - i,
            {
                let t = &self.triples[i];
                let ghost pre = edge_targets(g.subrange(0, i as int), current@, pv);
                proof {
                    assert(g[i as int] == t@);
                    assert(g.subrange(0, i as int + 1).drop_last() =~= g.subrange(0, i as int));
                    assert(g.subrange(0, i as int + 1).last() == g[i as int]);
                }
                let follow = str_eq(t.subject.as_str(), current.as_str())
                    && (predicates.len() == 0 || listed(predicates, t.predicate.as_str()));
                if follow {
                    match target_node(&t.object) {
                        Some(target) => {
                            proof {
                                lemma_target_in_all(g, i as int, target@);
                            }
                            let ghost fr_before = frontier@;
                            let ghost res_before = result@;
                            result.push(target.clone());
                            frontier.push((target, next_depth));
                            proof {
                                assert(names(result@) =~= names(res_before).push(target@));
                                assert(frontier_view(frontier@) =~= frontier_view(fr_before).push((target@, next_depth as nat)));
                                assert(names(result@) =~= result_before + pre.push(target@));
                                assert(at_depth(pre.push(target@), next_depth as nat) =~= at_depth(pre, next_depth as nat).push((target@, next_depth as nat)));
                                assert(frontier_view(frontier@) =~= rest + at_depth(pre.push(target@), next_depth as nat));
                                assert forall|k: int| 0 <= k < frontier@.len() implies #[trigger] frontier@[k].1 <= visited@.len() by {
                                    if k < fr_before.len() {
                                        assert(frontier@[k] == fr_before[k]);
                                    }
                                }
                            }
                        },
                        None => {},
                    }
                }
                i = i + 1;
            }
            proof {
                assert(g.subrange(0, g.len() as int) =~= g);
                let nv = names(visited@).to_set();
                let nf = frontier_view(frontier@);
                assert(nf =~= rest + at_depth(out, depth as nat + 1));
                assert(stack_within(nf, nodes)) by {
                    assert forall|k: int| 0 <= k < nf.len() implies nodes.contains(#[trigger] nf[k].0) by {
                        if k >= rest.len() {
                            lemma_edge_targets_within(g, current@, pv);
                            assert(all_targets(g).to_set().contains(out[k - rest.len()]));
                        }
                    }
                }
                assert(dfs(g, pv, max_depth as nat, fv, vset, nodes) == out + dfs(g, pv, max_depth as nat, nf, nv, nodes));
                assert(names(result@) + dfs(g, pv, max_depth as nat, nf, nv, nodes) =~= result_before + dfs(g, pv, max_depth as nat, fv, vset, nodes));
            }
        }
        proof {
            assert(frontier_view(frontier@) =~= Seq::<(Seq<char>, nat)>::empty());
            assert(names(result@) =~= total);
        }
        Ok(result)
    }
}

impl Default for SemanticGraph {
    fn default() -> (g: Self)
        ensures
            g.wf(),
            g@ == Seq::<TripleView>::empty(),
    {
        Self::new()
    }
}

/// Query builder for the semantic graph.
pub struct SemanticQuery<'a> {
    graph: &'a SemanticGraph,
    subject: Option<String>,
    predicate: Option<String>,
    object: Option<TripleObject>,
    limit: Option<usize>,
}

/// Whether a triple matches a query's filters: its subject starts with the
/// subject filter, its predicate and object equal the other filters.
pub open spec fn matches_filters(t: TripleView, subject: Option<Seq<char>>, predicate: Option<Seq<char>>, object: Option<ObjectView>) -> bool {
    &&& (subject matches Some(s) ==> is_prefix(s, t.subject))
    &&& (predicate matches Some(p) ==> t.predicate == p)
    &&& (object matches Some(o) ==> t.object == o)
}

/// The filter of a query.
pub open spec fn query_filter(subject: Option<Seq<char>>, predicate: Option<Seq<char>>, object: Option<ObjectView>) -> spec_fn(TripleView) -> bool {
    |t: TripleView| matches_filters(t, subject, predicate, object)
}

/// The abstract value of an optional string.
pub open spec fn opt_str_view(s: Option<String>) -> Option<Seq<char>> {
    match s {
        Some(s) => Some(s@),
        None => None,
    }
}

/// The abstract value of an optional object.
pub open spec fn opt_object_view(o: Option<TripleObject>) -> Option<ObjectView> {
    match o {
        Some(o) => Some(o@),
        None => None,
    }
}

/// The first `limit` items of a sequence, or all of them without a limit.
pub open spec fn limited(ts: Seq<TripleView>, limit: Option<usize>) -> Seq<TripleView> {
    match limit {
        Some(l) => if l < ts.len() { ts.subrange(0, l as int) } else { ts },
        None => ts,
    }
}

impl<'a> SemanticQuery<'a> {
    /// The graph the query runs on.
    pub closed spec fn spec_graph(&self) -> &'a SemanticGraph {
        self.graph
    }

    /// The subject prefix filter.
    pub closed spec fn spec_subject(&self) -> Option<Seq<char>> {
        opt_str_view(self.subject)
    }

    /// The predicate filter.
    pub closed spec fn spec_predicate(&self) -> Option<Seq<char>> {
        opt_str_view(self.predicate)
    }

    /// The object filter.
    pub closed spec fn spec_object(&self) -> Option<ObjectView> {
        opt_object_view(self.object)
    }

    /// The limit on the number of results.
    pub closed spec fn spec_limit(&self) -> Option<usize> {
        self.limit
    }

    fn new(graph: &'a SemanticGraph) -> (q: Self)
        ensures
            q.graph == graph,
            q.subject is None,
            q.predicate is None,
            q.object is None,
            q.limit is None,
    {
        SemanticQuery { graph, subject: None, predicate: None, object: None, limit: None }
    }

    /// Filter by subject prefix.
    pub fn subject(self, subject: &str) -> (q: Self)
        ensures
            q.spec_graph() == self.spec_graph(),
            q.spec_subject() == Some(subject@),
            q.spec_predicate() == self.spec_predicate(),
            q.spec_object() == self.spec_object(),
            q.spec_limit() == self.spec_limit(),
    {
        SemanticQuery { subject: Some(subject.to_owned()), ..self }
    }

    /// Filter by subject type: subjects that start with the lower-cased type
    /// name and a colon (e.g. "Action" selects `action:...`).
    pub fn subject_of_type(self, kind: &str) -> (q: Self)
        ensures
            q.spec_graph() == self.spec_graph(),
            q.spec_subject() == Some(lowercase(kind@) + ":"@),
            q.spec_predicate() == self.spec_predicate(),
            q.spec_object() == self.spec_object(),
            q.spec_limit() == self.spec_limit(),
    {
        let mut prefix = crate::text::to_lowercase(kind);
        append_str(&mut prefix, ":");
        let q = self.subject(prefix.as_str());
        proof {
            assert(prefix@ =~= lowercase(kind@) + ":"@);
        }
        q
    }

    /// Filter by predicate.
    pub fn with_predicate(self, predicate: &str) -> (q: Self)
        ensures
            q.spec_graph() == self.spec_graph(),
            q.spec_subject() == self.spec_subject(),
            q.spec_predicate() == Some(predicate@),
            q.spec_object() == self.spec_object(),
            q.spec_limit() == self.spec_limit(),
    {
        SemanticQuery { predicate: Some(predicate.to_owned()), ..self }
    }

    /// Filter by literal object value.
    pub fn with_object_literal(self, value: &str) -> (q: Self)
        ensures
            q.spec_graph() == self.spec_graph(),
            q.spec_subject() == self.spec_subject(),
            q.spec_predicate() == self.spec_predicate(),
            q.spec_object() == Some(ObjectView::Literal(value@)),
            q.spec_limit() == self.spec_limit(),
    {
        SemanticQuery { object: Some(TripleObject::Literal(value.to_owned())), ..self }
    }

    /// Filter by reference object value.
    pub fn with_object_reference(self, reference: &str) -> (q: Self)
        ensures
            q.spec_graph() == self.spec_graph(),
            q.spec_subject() == self.spec_subject(),
            q.spec_predicate() == self.spec_predicate(),
            q.spec_object() == Some(ObjectView::Reference(reference@)),
            q.spec_limit() == self.spec_limit(),
    {
        SemanticQuery { object: Some(TripleObject::Reference(reference.to_owned())), ..self }
    }

    /// Limit the number of results.
    pub fn limit(self, limit: usize) -> (q: Self)
        ensures
            q.spec_graph() == self.spec_graph(),
            q.spec_subject() == self.spec_subject(),
            q.spec_predicate() == self.spec_predicate(),
            q.spec_object() == self.spec_object(),
            q.spec_limit() == Some(limit),
    {
        SemanticQuery { limit: Some(limit), ..self }
    }

    /// Execute the query: the matching triples in insertion order, at most
    /// `limit` of them.
    pub fn execute(self) -> (r: Result<Vec<SemanticTriple>, Error>)
        ensures
            r matches Ok(v) && views(v@) == limited(
                select(self.spec_graph()@, query_filter(self.spec_subject(), self.spec_predicate(), self.spec_object())),
                self.spec_limit(),
            ),
    {
        let triples = &self.graph.triples;
        let mut out: Vec<SemanticTriple> = Vec::new();
        let mut i: usize = 0;
        while i < triples.len()
            invariant
                i <= triples@.len(),
                triples@ == self.graph.triples@,
                views(out@) == select(views(triples@.subrange(0, i as int)), query_filter(self.spec_subject(), self.spec_predicate(), self.spec_object())),
            decreases triples@.len() - i,
        {
            let t = &triples[i];
            let ok_s = match &self.subject {
                Some(s) => starts_with(t.subject.as_str(), s.as_str()),
                None => true,
            };
            let ok_p = match &self.predicate {
                Some(p) => str_eq(t.predicate.as_str(), p.as_str()),
                None => true,
            };
            let ok_o = match &self.object {
                Some(o) => t.object.same_as(o),
                None => true,
            };
            let ghost before = out@;
            if ok_s && ok_p && ok_o {
                out.push(t.copy());
            }
            proof {
                let pre = views(triples@.subrange(0, i as int + 1));
                assert(pre.drop_last() =~= views(triples@.subrange(0, i as int)));
                assert(pre.last() == t@);
                assert(query_filter(self.spec_subject(), self.spec_predicate(), self.spec_object())(t@) == (ok_s && ok_p && ok_o));
                if ok_s && ok_p && ok_o {
                    assert(views(out@) =~= views(before).push(t@));
                } else {
                    assert(out@ == before);
                }
            }
            i = i + 1;
        }
        proof {
            assert(triples@.subrange(0, triples@.len() as int) =~= triples@);
        }
        if let Some(limit) = self.limit {
            let ghost before = out@;
            out.truncate(limit);
            proof {
                if limit < before.len() {
                    assert(views(out@) =~= views(before).subrange(0, limit as int));
                }
            }
        }
        Ok(out)
    }
}


impl Default for GraphStats {
    /// All counters zero.
    fn default() -> (s: Self)
        ensures
            s.triple_count == 0,
            s.subject_count == 0,
            s.predicate_count == 0,
    {
        GraphStats { triple_count: 0, subject_count: 0, predicate_count: 0 }
    }
}

} // verus!
