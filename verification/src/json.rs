//! JSON documents: the values that front matter, data files and the template
//! context are made of.

use vstd::prelude::*;
use vstd::string::*;
use crate::text::str_eq;

verus! {

broadcast use {vstd::string::group_string_axioms, vstd::std_specs::vec::group_vec_axioms};

/// The mathematical value of a JSON document. A number is kept as its
/// numeral; an object is a finite map from keys to values.
pub ghost enum JsonValue {
    Null,
    Bool(bool),
    Number(Seq<char>),
    String(Seq<char>),
    Array(Seq<JsonValue>),
    Object(Map<Seq<char>, JsonValue>),
}

/// One member of a JSON object.
#[derive(Debug, PartialEq, Eq)]
pub struct Member {
    pub key: String,
    pub value: Json,
}

/// A JSON document. The members of an object are kept in a list in which no
/// key occurs twice (see `wf`).
#[derive(Debug, PartialEq, Eq)]
pub enum Json {
    Null,
    Bool(bool),
    Number(String),
    String(String),
    Array(Vec<Json>),
    Object(Vec<Member>),
}

/// The values of the first `n` elements of a list of documents.
pub open spec fn elements_view(v: Seq<Json>, n: nat) -> Seq<JsonValue>
    decreases v, n,
{
    if n == 0 || n > v.len() {
        Seq::empty()
    } else {
        elements_view(v, (n - 1) as nat).push(v[n - 1].view())
    }
}

/// The map that the first `n` members of a list stand for. Where a key
/// occurs twice, the later member counts.
pub open spec fn members_view(m: Seq<Member>, n: nat) -> Map<Seq<char>, JsonValue>
    decreases m, n,
{
    if n == 0 || n > m.len() {
        Map::empty()
    } else {
        members_view(m, (n - 1) as nat).insert(m[n - 1].key@, m[n - 1].value.view())
    }
}

/// Whether the first `n` elements of a list are all well-formed.
pub open spec fn elements_wf(v: Seq<Json>, n: nat) -> bool
    decreases v, n,
{
    if n == 0 || n > v.len() {
        true
    } else {
        elements_wf(v, (n - 1) as nat) && v[n - 1].wf()
    }
}

/// Whether the first `n` members of a list have well-formed values and
/// pairwise different keys.
pub open spec fn members_wf(m: Seq<Member>, n: nat) -> bool
    decreases m, n,
{
    if n == 0 || n > m.len() {
        true
    } else {
        &&& members_wf(m, (n - 1) as nat)
        &&& m[n - 1].value.wf()
        &&& !members_view(m, (n - 1) as nat).dom().contains(m[n - 1].key@)
    }
}

/// The deep merge of `src` into `dst`. Two objects merge key by key: a key of
/// `src` that `dst` also holds merges the two values, a key that `dst` lacks
/// is taken over, and the other keys of `dst` stay. In every other case the
/// result is `src`: a scalar or an array replaces what was there, and an
/// object replaces a scalar or an array.
pub open spec fn merge(dst: JsonValue, src: JsonValue) -> JsonValue
    decreases src,
{
    match (dst, src) {
        (JsonValue::Object(d), JsonValue::Object(s)) => JsonValue::Object(
            Map::new(
                |k: Seq<char>| d.dom().contains(k) || s.dom().contains(k),
                |k: Seq<char>|
                    if s.dom().contains(k) {
                        if d.dom().contains(k) {
                            merge(d[k], s[k])
                        } else {
                            s[k]
                        }
                    } else {
                        d[k]
                    },
            ),
        ),
        (_, s) => s,
    }
}

/// Merging a document into itself changes nothing.
pub proof fn lemma_merge_self(v: JsonValue)
    ensures
        merge(v, v) == v,
    decreases v,
{
    match v {
        JsonValue::Object(m) => {
            let merged = merge(v, v);
            assert forall|k: Seq<char>| m.dom().contains(k) implies merge(m[k], m[k]) == m[k] by {
                lemma_merge_self(m[k]);
            }
            assert(merged->Object_0 =~= m);
        },
        _ => {},
    }
}

/// Merging the same document a second time changes nothing: the merge is
/// idempotent.
pub proof fn lemma_merge_idempotent(dst: JsonValue, src: JsonValue)
    ensures
        merge(merge(dst, src), src) == merge(dst, src),
    decreases src,
{
    match (dst, src) {
        (JsonValue::Object(d), JsonValue::Object(s)) => {
            let once = merge(dst, src);
            let twice = merge(once, src);
            let o = once->Object_0;
            assert forall|k: Seq<char>| s.dom().contains(k) implies merge(o[k], s[k]) == o[k] by {
                if d.dom().contains(k) {
                    lemma_merge_idempotent(d[k], s[k]);
                } else {
                    lemma_merge_self(s[k]);
                }
            }
            assert(twice->Object_0 =~= o);
        },
        (_, s) => {
            lemma_merge_self(s);
        },
    }
}

/// A scalar or an array merged over anything replaces it wholly.
pub proof fn lemma_merge_replaces(dst: JsonValue, src: JsonValue)
    requires
        !(src is Object),
    ensures
        merge(dst, src) == src,
{
}

/// Two member lists that agree, position by position, in their keys and in
/// the values of their members stand for the same map, and one is
/// well-formed exactly when the other is.
pub proof fn lemma_members_pointwise(a: Seq<Member>, b: Seq<Member>, n: nat)
    requires
        n <= a.len(),
        n <= b.len(),
        forall|i: int|
            0 <= i < n ==> (#[trigger] a[i]).key@ == b[i].key@ && a[i].value.view()
                == b[i].value.view() && a[i].value.wf() == b[i].value.wf(),
    ensures
        members_view(a, n) == members_view(b, n),
        members_wf(a, n) == members_wf(b, n),
    decreases n,
{
    if n > 0 {
        lemma_members_pointwise(a, b, (n - 1) as nat);
        assert(a[n - 1].key@ == b[n - 1].key@);
    }
}

/// In a well-formed member list every member is found under its key.
pub proof fn lemma_members_index(m: Seq<Member>, n: nat, i: int)
    requires
        n <= m.len(),
        members_wf(m, n),
        0 <= i < n,
    ensures
        members_view(m, n).dom().contains(m[i].key@),
        members_view(m, n)[m[i].key@] == m[i].value.view(),
        m[i].value.wf(),
    decreases n,
{
    if i < n - 1 {
        lemma_members_index(m, (n - 1) as nat, i);
    }
}

/// Every key of the map that a member list stands for is the key of one of
/// its members.
pub proof fn lemma_members_dom(m: Seq<Member>, n: nat, k: Seq<char>)
    requires
        n <= m.len(),
        members_view(m, n).dom().contains(k),
    ensures
        exists|i: int| 0 <= i < n && (#[trigger] m[i]).key@ == k,
    decreases n,
{
    if n > 0 {
        if m[n - 1].key@ == k {
        } else {
            lemma_members_dom(m, (n - 1) as nat, k);
        }
    }
}

/// The values of a list of documents, position by position.
pub proof fn lemma_elements_index(v: Seq<Json>, n: nat)
    requires
        n <= v.len(),
    ensures
        elements_view(v, n).len() == n,
        forall|i: int| 0 <= i < n ==> (#[trigger] elements_view(v, n)[i]) == v[i].view(),
        elements_wf(v, n) <==> forall|i: int| 0 <= i < n ==> (#[trigger] v[i]).wf(),
    decreases n,
{
    if n > 0 {
        lemma_elements_index(v, (n - 1) as nat);
    }
}

/// Two lists of documents that agree, position by position, in their values
/// have the same list of values.
pub proof fn lemma_elements_pointwise(a: Seq<Json>, b: Seq<Json>, n: nat)
    requires
        n <= a.len(),
        n <= b.len(),
        forall|i: int| 0 <= i < n ==> (#[trigger] a[i]).view() == b[i].view(),
    ensures
        elements_view(a, n) == elements_view(b, n),
    decreases n,
{
    if n > 0 {
        lemma_elements_pointwise(a, b, (n - 1) as nat);
    }
}

impl Json {
    /// The value this document stands for.
    pub open spec fn view(&self) -> JsonValue
        decreases self, 0nat,
    {
        match self {
            Json::Null => JsonValue::Null,
            Json::Bool(b) => JsonValue::Bool(*b),
            Json::Number(n) => JsonValue::Number(n@),
            Json::String(s) => JsonValue::String(s@),
            Json::Array(v) => JsonValue::Array(elements_view(v@, v@.len())),
            Json::Object(m) => JsonValue::Object(members_view(m@, m@.len())),
        }
    }

    /// Well-formedness: no object, at any depth, holds a key twice.
    pub open spec fn wf(&self) -> bool
        decreases self, 0nat,
    {
        match self {
            Json::Array(v) => elements_wf(v@, v@.len()),
            Json::Object(m) => members_wf(m@, m@.len()),
            _ => true,
        }
    }

    /// An object without members.
    pub fn new_object() -> (r: Json)
        ensures
            r@ == JsonValue::Object(Map::empty()),
            r.wf(),
    {
        Json::Object(Vec::new())
    }

    /// A string value.
    pub fn new_string(s: &str) -> (r: Json)
        ensures
            r@ == JsonValue::String(s@),
            r.wf(),
    {
        Json::String(s.to_owned())
    }

    /// Reads a JSON text; `None` where the text is not JSON.
    pub fn parse(text: &str) -> (r: Option<Json>)
        ensures
            r is Some <==> json_text(text@) is Some,
            r matches Some(j) ==> j.wf() && Some(j@) == json_text(text@),
    {
        parse_json_text(text)
    }

    /// A copy of this document.
    pub fn duplicate(&self) -> (r: Json)
        ensures
            r@ == self@,
            r.wf() == self.wf(),
        decreases self,
    {
        match self {
            Json::Null => Json::Null,
            Json::Bool(b) => Json::Bool(*b),
            Json::Number(n) => Json::Number(n.clone()),
            Json::String(s) => Json::String(s.clone()),
            Json::Array(v) => {
                let mut out: Vec<Json> = Vec::new();
                let mut i: usize = 0;
                while i < v.len()
                    invariant
                        i <= v.len(),
                        out.len() == i,
                        *self is Array,
                        (*self)->Array_0 == *v,
                        forall|t: int|
                            0 <= t < i ==> (#[trigger] out@[t]).view() == v@[t].view()
                                && out@[t].wf() == v@[t].wf(),
                    decreases v.len() - i,
                {
                    let copy = v[i].duplicate();
                    out.push(copy);
                    i += 1;
                }
                proof {
                    lemma_elements_pointwise(out@, v@, v@.len());
                    lemma_elements_index(out@, out@.len());
                    lemma_elements_index(v@, v@.len());
                    if elements_wf(v@, v@.len()) {
                        assert forall|t: int| 0 <= t < out@.len() implies (#[trigger] out@[t]).wf() by {
                            assert(v@[t].wf());
                        }
                    }
                    if elements_wf(out@, out@.len()) {
                        assert forall|t: int| 0 <= t < v@.len() implies (#[trigger] v@[t]).wf() by {
                            assert(out@[t].wf());
                        }
                    }
                }
                Json::Array(out)
            },
            Json::Object(m) => {
                let mut out: Vec<Member> = Vec::new();
                let mut i: usize = 0;
                while i < m.len()
                    invariant
                        i <= m.len(),
                        out.len() == i,
                        *self is Object,
                        (*self)->Object_0 == *m,
                        forall|t: int|
                            0 <= t < i ==> (#[trigger] out@[t]).key@ == m@[t].key@
                                && out@[t].value.view() == m@[t].value.view()
                                && out@[t].value.wf() == m@[t].value.wf(),
                    decreases m.len() - i,
                {
                    let copy = Member { key: m[i].key.clone(), value: m[i].value.duplicate() };
                    out.push(copy);
                    i += 1;
                }
                proof {
                    lemma_members_pointwise(out@, m@, m@.len());
                }
                Json::Object(out)
            },
        }
    }

    /// Whether this document is well-formed (see `wf`): what was built by
    /// hand can be checked before it is handed to a function that asks for a
    /// well-formed document.
    pub fn is_well_formed(&self) -> (r: bool)
        ensures
            r == self.wf(),
        decreases self,
    {
        match self {
            Json::Array(v) => {
                let mut i: usize = 0;
                while i < v.len()
                    invariant
                        i <= v.len(),
                        *self is Array,
                        (*self)->Array_0 == *v,
                        elements_wf(v@, i as nat),
                    decreases v.len() - i,
                {
                    if !v[i].is_well_formed() {
                        proof {
                            lemma_elements_index(v@, v@.len());
                        }
                        return false;
                    }
                    i += 1;
                }
                true
            },
            Json::Object(m) => {
                let mut i: usize = 0;
                while i < m.len()
                    invariant
                        i <= m.len(),
                        *self is Object,
                        (*self)->Object_0 == *m,
                        members_wf(m@, i as nat),
                    decreases m.len() - i,
                {
                    let mut j: usize = 0;
                    let mut repeated = false;
                    while j < i
                        invariant
                            j <= i < m.len(),
                            repeated <==> exists|t: int|
                                0 <= t < j && (#[trigger] m@[t]).key@ == m@[i as int].key@,
                        decreases i - j,
                    {
                        if str_eq(m[j].key.as_str(), m[i].key.as_str()) {
                            repeated = true;
                        }
                        j += 1;
                    }
                    proof {
                        if repeated {
                            let t = choose|t: int|
                                0 <= t < i && (#[trigger] m@[t]).key@ == m@[i as int].key@;
                            lemma_members_key_held(m@, i as nat, t);
                        } else if members_view(m@, i as nat).dom().contains(m@[i as int].key@) {
                            lemma_members_dom(m@, i as nat, m@[i as int].key@);
                        }
                    }
                    if repeated || !m[i].value.is_well_formed() {
                        proof {
                            if members_wf(m@, m@.len()) {
                                lemma_members_wf_prefix(m@, m@.len(), (i + 1) as nat);
                            }
                        }
                        return false;
                    }
                    i += 1;
                }
                true
            },
            _ => true,
        }
    }

    /// The value of the member `key` where this document is an object that
    /// holds it.
    pub open spec fn spec_get(self, key: Seq<char>) -> Option<JsonValue> {
        match self@ {
            JsonValue::Object(m) => if m.dom().contains(key) {
                Some(m[key])
            } else {
                None
            },
            _ => None,
        }
    }

    /// The member `key` where this document is an object that holds it.
    pub fn get(&self, key: &str) -> (r: Option<&Json>)
        requires
            self.wf(),
        ensures
            match r {
                Some(value) => self.spec_get(key@) == Some(value@) && value.wf(),
                None => self.spec_get(key@) is None,
            },
    {
        match self {
            Json::Object(m) => match find_member(m, key) {
                Some(i) => {
                    proof {
                        lemma_members_index(m@, m@.len(), i as int);
                    }
                    Some(&m[i].value)
                },
                None => {
                    proof {
                        if members_view(m@, m@.len()).dom().contains(key@) {
                            lemma_members_dom(m@, m@.len(), key@);
                        }
                    }
                    None
                },
            },
            _ => None,
        }
    }

    /// The text of this document where it is a string.
    pub fn as_str(&self) -> (r: Option<&str>)
        ensures
            match r {
                Some(s) => self@ == JsonValue::String(s@),
                None => !(self@ is String),
            },
    {
        match self {
            Json::String(s) => Some(s.as_str()),
            _ => None,
        }
    }

    /// The truth value of this document where it is a boolean.
    pub fn as_bool(&self) -> (r: Option<bool>)
        ensures
            match r {
                Some(b) => self@ == JsonValue::Bool(b),
                None => !(self@ is Bool),
            },
    {
        match self {
            Json::Bool(b) => Some(*b),
            _ => None,
        }
    }

    /// Whether this document is an object.
    pub fn is_object(&self) -> (r: bool)
        ensures
            r == (self@ is Object),
    {
        match self {
            Json::Object(_) => true,
            _ => false,
        }
    }

    /// This document with the member `key` set to `value` where it is an
    /// object; any other document is left as it is.
    pub open spec fn spec_with_member(self, key: Seq<char>, value: JsonValue) -> JsonValue {
        match self@ {
            JsonValue::Object(m) => JsonValue::Object(m.insert(key, value)),
            other => other,
        }
    }

    /// Sets the member `key` of an object to `value`, replacing what the key
    /// held. A document that is no object is left as it is.
    pub fn set_member(&mut self, key: &str, value: Json)
        requires
            old(self).wf(),
            value.wf(),
        ensures
            final(self)@ == old(self).spec_with_member(key@, value@),
            final(self).wf(),
    {
        match self {
            Json::Object(m) => {
                let ghost before = m@;
                match find_member(m, key) {
                    Some(i) => {
                        let replaced = Member { key: key.to_owned(), value };
                        let ghost old_value = m@[i as int];
                        m.remove(i);
                        proof {
                            lemma_members_remove(before, i as int);
                        }
                        let ghost shorter = m@;
                        m.push(replaced);
                        proof {
                            lemma_members_pointwise(m@, shorter, shorter.len());
                            assert(members_view(m@, m@.len()) =~= members_view(
                                before,
                                before.len(),
                            ).insert(key@, value@));
                        }
                    },
                    None => {
                        let added = Member { key: key.to_owned(), value };
                        m.push(added);
                        proof {
                            if members_view(before, before.len()).dom().contains(key@) {
                                lemma_members_dom(before, before.len(), key@);
                            }
                            lemma_members_pointwise(m@, before, before.len());
                        }
                    },
                }
            },
            _ => {},
        }
    }

    /// The deep merge of `src` into `dst` (see `merge`).
    pub fn merged(dst: &Json, src: &Json) -> (r: Json)
        requires
            dst.wf(),
            src.wf(),
        ensures
            r@ == merge(dst@, src@),
            r.wf(),
        decreases src,
    {
        match (dst, src) {
            (Json::Object(dm), Json::Object(sm)) => {
                let ghost d = members_view(dm@, dm@.len());
                let ghost s = members_view(sm@, sm@.len());
                let ghost target = merge(dst@, src@)->Object_0;
                let mut out: Vec<Member> = Vec::new();
                let mut i: usize = 0;
                // The members of `dst`, each merged with what `src` holds under its key.
                while i < dm.len()
                    invariant
                        i <= dm.len(),
                        out.len() == i,
                        dst.wf(),
                        src.wf(),
                        *dst == Json::Object(*dm),
                        *src == Json::Object(*sm),
                        d == members_view(dm@, dm@.len()),
                        s == members_view(sm@, sm@.len()),
                        target == merge(dst@, src@)->Object_0,
                        forall|t: int|
                            0 <= t < i ==> (#[trigger] out@[t]).key@ == dm@[t].key@
                                && out@[t].value.view() == target[dm@[t].key@]
                                && out@[t].value.wf(),
                    decreases dm.len() - i,
                {
                    proof {
                        lemma_members_index(dm@, dm@.len(), i as int);
                    }
                    let value = match find_member(sm, dm[i].key.as_str()) {
                        Some(j) => {
                            proof {
                                lemma_members_index(sm@, sm@.len(), j as int);
                            }
                            Json::merged(&dm[i].value, &sm[j].value)
                        },
                        None => {
                            proof {
                                if s.dom().contains(dm@[i as int].key@) {
                                    lemma_members_dom(sm@, sm@.len(), dm@[i as int].key@);
                                }
                            }
                            dm[i].value.duplicate()
                        },
                    };
                    out.push(Member { key: dm[i].key.clone(), value });
                    i += 1;
                }
                proof {
                    lemma_members_wf_transfer(out@, dm@, dm@.len());
                    assert forall|k: Seq<char>| #[trigger]
                        members_view(out@, out@.len()).dom().contains(k) implies members_view(
                        out@,
                        out@.len(),
                    )[k] == target[k] by {
                        lemma_members_dom(out@, out@.len(), k);
                    }
                }
                let mut j: usize = 0;
                // The members of `src` whose key `dst` lacks.
                while j < sm.len()
                    invariant
                        j <= sm.len(),
                        dst.wf(),
                        src.wf(),
                        *dst == Json::Object(*dm),
                        *src == Json::Object(*sm),
                        d == members_view(dm@, dm@.len()),
                        s == members_view(sm@, sm@.len()),
                        target == merge(dst@, src@)->Object_0,
                        members_wf(out@, out@.len()),
                        members_view(out@, out@.len()).dom() =~= d.dom().union(
                            members_view(sm@, j as nat).dom(),
                        ),
                        forall|k: Seq<char>| #[trigger]
                            members_view(out@, out@.len()).dom().contains(k) ==> members_view(
                                out@,
                                out@.len(),
                            )[k] == target[k],
                    decreases sm.len() - j,
                {
                    proof {
                        lemma_members_index(sm@, sm@.len(), j as int);
                        lemma_members_wf_prefix(sm@, sm@.len(), (j + 1) as nat);
                    }
                    match find_member(dm, sm[j].key.as_str()) {
                        Some(at) => {
                            proof {
                                lemma_members_index(dm@, dm@.len(), at as int);
                            }
                        },
                        None => {
                            let ghost before = out@;
                            let ghost key = sm@[j as int].key@;
                            proof {
                                if d.dom().contains(key) {
                                    lemma_members_dom(dm@, dm@.len(), key);
                                }
                            }
                            out.push(Member { key: sm[j].key.clone(), value: sm[j].value.duplicate() });
                            proof {
                                lemma_members_pointwise(out@, before, before.len());
                            }
                        },
                    }
                    j += 1;
                }
                proof {
                    assert(members_view(out@, out@.len()) =~= target);
                }
                Json::Object(out)
            },
            (_, s) => s.duplicate(),
        }
    }

    /// Merges `src` into this document (see `merge`).
    pub fn merge_from(&mut self, src: &Json)
        requires
            old(self).wf(),
            src.wf(),
        ensures
            final(self)@ == merge(old(self)@, src@),
            final(self).wf(),
    {
        let merged = Json::merged(self, src);
        *self = merged;
    }
}

/// Position of the member of `m` with the key `key`.
fn find_member(m: &Vec<Member>, key: &str) -> (r: Option<usize>)
    ensures
        match r {
            Some(i) => i < m.len() && m@[i as int].key@ == key@,
            None => forall|i: int| 0 <= i < m.len() ==> (#[trigger] m@[i]).key@ != key@,
        },
{
    let mut i: usize = 0;
    while i < m.len()
        invariant
            i <= m.len(),
            forall|t: int| 0 <= t < i ==> (#[trigger] m@[t]).key@ != key@,
        decreases m.len() - i,
    {
        if str_eq(m[i].key.as_str(), key) {
            return Some(i);
        }
        i += 1;
    }
    None
}

/// The key of every member of a list is held by the map that the list
/// stands for.
pub proof fn lemma_members_key_held(m: Seq<Member>, n: nat, i: int)
    requires
        n <= m.len(),
        0 <= i < n,
    ensures
        members_view(m, n).dom().contains(m[i].key@),
    decreases n,
{
    if i < n - 1 {
        lemma_members_key_held(m, (n - 1) as nat, i);
    }
}

/// Every prefix of a well-formed member list is well-formed.
pub proof fn lemma_members_wf_prefix(m: Seq<Member>, n: nat, k: nat)
    requires
        n <= m.len(),
        members_wf(m, n),
        k <= n,
    ensures
        members_wf(m, k),
    decreases n,
{
    if k < n {
        lemma_members_wf_prefix(m, (n - 1) as nat, k);
    }
}

/// In a well-formed member list two different members have different keys.
pub proof fn lemma_members_distinct(m: Seq<Member>, n: nat, i: int, j: int)
    requires
        n <= m.len(),
        members_wf(m, n),
        0 <= i < j < n,
    ensures
        m[i].key@ != m[j].key@,
    decreases n,
{
    if j < n - 1 {
        lemma_members_distinct(m, (n - 1) as nat, i, j);
    } else {
        lemma_members_index(m, (n - 1) as nat, i);
    }
}

/// A member list whose keys are, position by position, those of a
/// well-formed list, and whose values are well-formed, is well-formed.
pub proof fn lemma_members_wf_transfer(a: Seq<Member>, b: Seq<Member>, n: nat)
    requires
        n <= a.len(),
        n <= b.len(),
        members_wf(b, n),
        forall|i: int| 0 <= i < n ==> (#[trigger] a[i]).key@ == b[i].key@ && a[i].value.wf(),
    ensures
        members_wf(a, n),
        members_view(a, n).dom() == members_view(b, n).dom(),
        forall|i: int|
            0 <= i < n ==> members_view(a, n)[(#[trigger] a[i]).key@] == a[i].value.view(),
    decreases n,
{
    if n > 0 {
        lemma_members_wf_transfer(a, b, (n - 1) as nat);
        assert(a[n - 1].key@ == b[n - 1].key@);
        assert(members_view(a, n).dom() =~= members_view(b, n).dom());
        assert forall|i: int| 0 <= i < n implies members_view(a, n)[(#[trigger] a[i]).key@]
            == a[i].value.view() by {
            if i < n - 1 {
                lemma_members_index(a, (n - 1) as nat, i);
            }
        }
    }
}

/// Taking one member out of a well-formed list leaves a well-formed list
/// that stands for the map without that member's key.
pub proof fn lemma_members_remove(m: Seq<Member>, i: int)
    requires
        members_wf(m, m.len()),
        0 <= i < m.len(),
    ensures
        members_wf(m.remove(i), m.remove(i).len()),
        members_view(m.remove(i), m.remove(i).len()) == members_view(m, m.len()).remove(
            m[i].key@,
        ),
    decreases m.len(),
{
    let n = m.len();
    let r = m.remove(i);
    if i == n - 1 {
        lemma_members_pointwise(r, m, (n - 1) as nat);
        assert(members_view(r, r.len()) =~= members_view(m, n).remove(m[i].key@));
    } else {
        let shorter = m.take(n - 1);
        lemma_members_pointwise(shorter, m, (n - 1) as nat);
        lemma_members_remove(shorter, i);
        let rs = shorter.remove(i);
        assert(rs.len() == n - 2);
        lemma_members_pointwise(r, rs, (n - 2) as nat);
        assert(r[n - 2] == m[n - 1]);
        lemma_members_distinct(m, n, i, n - 1);
        assert(members_view(r, r.len()) =~= members_view(m, n).remove(m[i].key@));
    }
}

/// A parsed JSON text as the JSON parser holds it.
#[verifier::external_type_specification]
#[verifier::external_body]
pub struct ExParsedJson(serde_json::Value);

/// The document that a JSON text stands for, as the JSON parser reads it;
/// `None` where the text is not JSON.
pub uninterp spec fn json_text(text: Seq<char>) -> Option<JsonValue>;

/// Copies a parsed value (`serde_json::Value`) into a document, variant by
/// variant; a number is kept as the numeral that the parser prints for it.
/// The parser's objects hold each key once, so the copy is well-formed.
#[verifier::external_body]
pub(crate) fn json_from_value(v: &serde_json::Value) -> (r: Json)
    ensures
        r.wf(),
{
    match v {
        serde_json::Value::Null => Json::Null,
        serde_json::Value::Bool(b) => Json::Bool(*b),
        serde_json::Value::Number(n) => Json::Number(n.to_string()),
        serde_json::Value::String(s) => Json::String(s.clone()),
        serde_json::Value::Array(a) => Json::Array(a.iter().map(json_from_value).collect()),
        serde_json::Value::Object(o) => Json::Object(
            o.iter().map(|(k, v)| Member { key: k.clone(), value: json_from_value(v) }).collect(),
        ),
    }
}

/// Copies a document into a value of the JSON library
/// (`serde_json::Value`), variant by variant; a numeral that the library
/// does not read as a number becomes null. Nothing is claimed of the result,
/// which is only handed on to the template engine.
#[verifier::external_body]
pub(crate) fn json_to_value(j: &Json) -> serde_json::Value {
    match j {
        Json::Null => serde_json::Value::Null,
        Json::Bool(b) => serde_json::Value::Bool(*b),
        Json::Number(n) => n.parse().map(serde_json::Value::Number).unwrap_or(
            serde_json::Value::Null,
        ),
        Json::String(s) => serde_json::Value::String(s.clone()),
        Json::Array(a) => serde_json::Value::Array(a.iter().map(json_to_value).collect()),
        Json::Object(o) => serde_json::Value::Object(
            o.iter().map(|m| (m.key.clone(), json_to_value(&m.value))).collect(),
        ),
    }
}

/// Parses a JSON text (`serde_json::from_str`). The parser reads nothing
/// but the text, so the document is a function of it.
#[verifier::external_body]
fn parse_json_text(text: &str) -> (r: Option<Json>)
    ensures
        r is Some <==> json_text(text@) is Some,
        r matches Some(j) ==> j.wf() && Some(j@) == json_text(text@),
{
    match serde_json::from_str::<serde_json::Value>(text) {
        Ok(v) => Some(json_from_value(&v)),
        Err(_) => None,
    }
}

} // verus!
