use vstd::prelude::*;

verus! {

/// A JSON value. Objects keep their entries in order; a numeric literal is
/// kept as its verbatim text so that no precision is lost.
pub enum Json {
    Null,
    Bool(bool),
    Num(String),
    Str(String),
    Arr(Vec<Json>),
    Obj(Vec<(String, Json)>),
}

/// The value of the first entry with the given key, if any.
pub open spec fn obj_lookup(entries: Seq<(String, Json)>, key: Seq<char>) -> Option<Json>
    decreases entries.len(),
{
    if entries.len() == 0 {
        None
    } else if entries[0].0@ == key {
        Some(entries[0].1)
    } else {
        obj_lookup(entries.drop_first(), key)
    }
}

/// Field access: the value under `key` when the value is an object.
pub open spec fn json_get(j: Json, key: Seq<char>) -> Option<Json> {
    match j {
        Json::Obj(entries) => obj_lookup(entries@, key),
        _ => None,
    }
}

/// Field access narrowed to string values.
pub open spec fn json_get_str(j: Json, key: Seq<char>) -> Option<Seq<char>> {
    match json_get(j, key) {
        Some(Json::Str(s)) => Some(s@),
        _ => None,
    }
}

/// The entries with the given key removed.
pub open spec fn obj_remove_spec(entries: Seq<(String, Json)>, key: Seq<char>) -> Seq<
    (String, Json),
>
    decreases entries.len(),
{
    if entries.len() == 0 {
        Seq::empty()
    } else if entries[0].0@ == key {
        obj_remove_spec(entries.drop_first(), key)
    } else {
        seq![entries[0]] + obj_remove_spec(entries.drop_first(), key)
    }
}

proof fn lemma_obj_lookup_first(entries: Seq<(String, Json)>, key: Seq<char>, i: int)
    requires
        0 <= i < entries.len(),
        entries[i].0@ == key,
        forall|j: int| 0 <= j < i ==> entries[j].0@ != key,
    ensures
        obj_lookup(entries, key) == Some(entries[i].1),
    decreases i,
{
    if i > 0 {
        assert(entries[0].0@ != key);
        assert(forall|j: int|
            0 <= j < i - 1 ==> entries.drop_first()[j].0@ == entries[j + 1].0@);
        lemma_obj_lookup_first(entries.drop_first(), key, i - 1);
    }
}

proof fn lemma_obj_lookup_absent(entries: Seq<(String, Json)>, key: Seq<char>)
    requires
        forall|j: int| 0 <= j < entries.len() ==> entries[j].0@ != key,
    ensures
        obj_lookup(entries, key) is None,
    decreases entries.len(),
{
    if entries.len() > 0 {
        lemma_obj_lookup_absent(entries.drop_first(), key);
    }
}

proof fn lemma_obj_lookup_update_other(
    entries: Seq<(String, Json)>,
    i: int,
    p: (String, Json),
    k: Seq<char>,
)
    requires
        0 <= i < entries.len(),
        entries[i].0@ == p.0@,
        k != p.0@,
    ensures
        obj_lookup(entries.update(i, p), k) == obj_lookup(entries, k),
    decreases i,
{
    let upd = entries.update(i, p);
    if i == 0 {
        assert(upd[0] == p);
        assert(upd.drop_first() =~= entries.drop_first());
    } else {
        assert(upd[0] == entries[0]);
        if entries[0].0@ == k {
        } else {
            assert(upd.drop_first() =~= entries.drop_first().update(i - 1, p));
            lemma_obj_lookup_update_other(entries.drop_first(), i - 1, p, k);
        }
    }
}

proof fn lemma_obj_lookup_push(entries: Seq<(String, Json)>, p: (String, Json), k: Seq<char>)
    ensures
        obj_lookup(entries.push(p), k) == (if obj_lookup(entries, k) is Some {
            obj_lookup(entries, k)
        } else if p.0@ == k {
            Some(p.1)
        } else {
            None
        }),
    decreases entries.len(),
{
    let pushed = entries.push(p);
    assert(pushed.len() == entries.len() + 1);
    if entries.len() == 0 {
        assert(pushed[0] == p);
        if p.0@ == k {
            assert(obj_lookup(pushed, k) == Some(p.1));
        } else {
            let rest = pushed.drop_first();
            assert(rest.len() == 0);
            assert(obj_lookup(rest, k) is None);
        }
    } else {
        assert(pushed[0] == entries[0]);
        if entries[0].0@ == k {
        } else {
            assert(pushed.drop_first() =~= entries.drop_first().push(p));
            lemma_obj_lookup_push(entries.drop_first(), p, k);
            assert(obj_lookup(pushed, k) == obj_lookup(pushed.drop_first(), k));
        }
    }
}

proof fn lemma_obj_remove_other(entries: Seq<(String, Json)>, key: Seq<char>, k: Seq<char>)
    requires
        k != key,
    ensures
        obj_lookup(obj_remove_spec(entries, key), k) == obj_lookup(entries, k),
    decreases entries.len(),
{
    if entries.len() > 0 {
        lemma_obj_remove_other(entries.drop_first(), key, k);
        if entries[0].0@ == key {
        } else {
            let rest = obj_remove_spec(entries.drop_first(), key);
            let whole = seq![entries[0]] + rest;
            assert(whole[0] == entries[0]);
            assert(whole.drop_first() =~= rest);
        }
    }
}

proof fn lemma_obj_remove_gone(entries: Seq<(String, Json)>, key: Seq<char>)
    ensures
        obj_lookup(obj_remove_spec(entries, key), key) is None,
    decreases entries.len(),
{
    if entries.len() > 0 {
        lemma_obj_remove_gone(entries.drop_first(), key);
        if entries[0].0@ == key {
        } else {
            let rest = obj_remove_spec(entries.drop_first(), key);
            let whole = seq![entries[0]] + rest;
            assert(whole[0] == entries[0]);
            assert(whole.drop_first() =~= rest);
        }
    }
}

impl Json {
    /// Reads the field under `key`, when this value is an object that has it.
    pub fn obj_get<'a>(&'a self, key: &str) -> (r: Option<&'a Json>)
        ensures
            match r {
                Some(x) => json_get(*self, key@) == Some(*x),
                None => json_get(*self, key@) is None,
            },
    {
        match self {
            Json::Obj(entries) => {
                let n: usize = entries.len();
                let mut i: usize = 0;
                while i < n
                    invariant
                        0 <= i <= n,
                        n == entries@.len(),
                        *self == Json::Obj(*entries),
                        forall|j: int| 0 <= j < i ==> entries@[j].0@ != key@,
                    decreases n - i,
                {
                    if crate::strutil::str_eq(entries[i].0.as_str(), key) {
                        proof {
                            lemma_obj_lookup_first(entries@, key@, i as int);
                            assert(json_get(*self, key@) == obj_lookup(entries@, key@));
                        }
                        return Some(&entries[i].1);
                    }
                    i = i + 1;
                }
                proof {
                    lemma_obj_lookup_absent(entries@, key@);
                }
                None
            },
            _ => None,
        }
    }

    /// Reads the field under `key` as a string value.
    pub fn obj_get_str<'a>(&'a self, key: &str) -> (r: Option<&'a String>)
        ensures
            match r {
                Some(x) => json_get_str(*self, key@) == Some(x@),
                None => json_get_str(*self, key@) is None,
            },
    {
        match self.obj_get(key) {
            Some(Json::Str(s)) => Some(s),
            _ => None,
        }
    }
}

/// Writes `val` under `key`: the first entry with that key is replaced in
/// place, or a new entry is appended.
pub fn obj_set(j: Json, key: &str, val: Json) -> (r: Json)
    requires
        j is Obj,
    ensures
        r is Obj,
        json_get(r, key@) == Some(val),
        forall|k: Seq<char>| k != key@ ==> #[trigger] json_get(r, k) == json_get(j, k),
{
    match j {
        Json::Obj(mut entries) => {
            let ghost orig = entries@;
            let n: usize = entries.len();
            let mut i: usize = 0;
            while i < n
                invariant
                    0 <= i <= n,
                    n == entries@.len(),
                    j is Obj,
                    j->Obj_0@ == orig,
                    entries@ == orig,
                    forall|j2: int| 0 <= j2 < i ==> entries@[j2].0@ != key@,
                decreases n - i,
            {
                if crate::strutil::str_eq(entries[i].0.as_str(), key) {
                    let ghost before = entries@;
                    let pair = (String::from_str(key), val);
                    let ghost p = pair;
                    entries.remove(i);
                    entries.insert(i, pair);
                    let result = Json::Obj(entries);
                    proof {
                        assert(json_get(j, key@) == obj_lookup(orig, key@));
                        assert(result->Obj_0@ =~= before.update(i as int, p));
                        lemma_obj_lookup_first(result->Obj_0@, key@, i as int);
                        assert(json_get(result, key@) == Some(val));
                        assert forall|k: Seq<char>| k != key@ implies #[trigger] json_get(
                            result,
                            k,
                        ) == json_get(j, k) by {
                            lemma_obj_lookup_update_other(before, i as int, p, k);
                            assert(json_get(j, k) == obj_lookup(orig, k));
                            assert(json_get(result, k) == obj_lookup(before.update(i as int, p), k));
                        }
                    }
                    return result;
                }
                i = i + 1;
            }
            let pair = (String::from_str(key), val);
            let ghost p = pair;
            let ghost before = entries@;
            entries.push(pair);
            let result = Json::Obj(entries);
            proof {
                lemma_obj_lookup_absent(before, key@);
                lemma_obj_lookup_push(before, p, key@);
                assert(json_get(result, key@) == Some(val));
                assert forall|k: Seq<char>| k != key@ implies #[trigger] json_get(result, k)
                    == json_get(j, k) by {
                    lemma_obj_lookup_push(before, p, k);
                    assert(json_get(j, k) == obj_lookup(orig, k));
                    assert(json_get(result, k) == obj_lookup(before.push(p), k));
                }
            }
            result
        },
        other => {
            proof {
                assert(false);
            }
            other
        },
    }
}

/// Removes every entry with the given key, returning the object and the
/// value that the first removed entry held, if any.
pub fn obj_take(j: Json, key: &str) -> (r: (Json, Option<Json>))
    requires
        j is Obj,
    ensures
        r.0 is Obj,
        r.1 == json_get(j, key@),
        json_get(r.0, key@) is None,
        forall|k: Seq<char>| k != key@ ==> #[trigger] json_get(r.0, k) == json_get(j, k),
{
    match j {
        Json::Obj(mut entries) => {
            let ghost orig = entries@;
            let mut out: Vec<(String, Json)> = Vec::new();
            let mut first: Option<Json> = None;
            while entries.len() > 0
                invariant
                    j is Obj,
                    j->Obj_0@ == orig,
                    obj_remove_spec(orig, key@) == out@ + obj_remove_spec(entries@, key@),
                    obj_lookup(orig, key@) == (if first is Some {
                        first
                    } else {
                        obj_lookup(entries@, key@)
                    }),
                    forall|j2: int| 0 <= j2 < out@.len() ==> out@[j2].0@ != key@,
                decreases entries@.len(),
            {
                let ghost before = entries@;
                let e = entries.remove(0);
                proof {
                    assert(entries@ =~= before.drop_first());
                    assert(before[0] == e);
                }
                if crate::strutil::str_eq(e.0.as_str(), key) {
                    if first.is_none() {
                        first = Some(e.1);
                    }
                } else {
                    let ghost out_before = out@;
                    out.push(e);
                    proof {
                        assert(obj_remove_spec(before, key@) =~= seq![e] + obj_remove_spec(
                            entries@,
                            key@,
                        ));
                        assert(out@ + obj_remove_spec(entries@, key@) =~= out_before + (seq![e]
                            + obj_remove_spec(entries@, key@)));
                    }
                }
            }
            let result = Json::Obj(out);
            proof {
                assert(obj_remove_spec(entries@, key@) =~= Seq::<(String, Json)>::empty());
                assert(result->Obj_0@ =~= obj_remove_spec(orig, key@));
                lemma_obj_remove_gone(orig, key@);
                assert(json_get(j, key@) == obj_lookup(orig, key@));
                assert forall|k: Seq<char>| k != key@ implies #[trigger] json_get(result, k)
                    == json_get(j, k) by {
                    lemma_obj_remove_other(orig, key@, k);
                    assert(json_get(j, k) == obj_lookup(orig, k));
                    assert(json_get(result, k) == obj_lookup(obj_remove_spec(orig, key@), k));
                }
            }
            (result, first)
        },
        other => {
            proof {
                assert(false);
            }
            (other, None)
        },
    }
}

} // verus!
