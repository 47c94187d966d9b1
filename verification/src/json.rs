//! A generic JSON value tree and its canonical serializer.
//!
//! The renderer builds a `Json` tree from the document model and hands it to
//! one serializer, so that bracket and comma placement is guaranteed by the
//! tree's structure rather than by per-field conditionals.

use vstd::prelude::*;

verus! {

/// The mathematical shape of a JSON value: text keeps its characters, and
/// arrays and objects keep their elements in order.
pub enum JsonV {
    Null,
    Bool(bool),
    Text(Seq<char>),
    Arr(Seq<JsonV>),
    Obj(Seq<(Seq<char>, JsonV)>),
}

/// A JSON value as built at run time.
pub enum Json {
    Null,
    Bool(bool),
    Text(String),
    Arr(Vec<Json>),
    Obj(Vec<(String, Json)>),
}

/// The mathematical value of a `Json` tree.
pub open spec fn view_json(j: Json) -> JsonV
    decreases j,
{
    match j {
        Json::Null => JsonV::Null,
        Json::Bool(b) => JsonV::Bool(b),
        Json::Text(s) => JsonV::Text(s@),
        Json::Arr(v) => JsonV::Arr(view_arr(v@)),
        Json::Obj(v) => JsonV::Obj(view_obj(v@)),
    }
}

/// The mathematical values of a run of `Json` trees.
pub open spec fn view_arr(s: Seq<Json>) -> Seq<JsonV>
    decreases s,
{
    if s.len() == 0 {
        Seq::empty()
    } else {
        seq![view_json(s[0])] + view_arr(s.drop_first())
    }
}

/// The mathematical values of a run of key/value entries.
pub open spec fn view_obj(s: Seq<(String, Json)>) -> Seq<(Seq<char>, JsonV)>
    decreases s,
{
    if s.len() == 0 {
        Seq::empty()
    } else {
        seq![(s[0].0@, view_json(s[0].1))] + view_obj(s.drop_first())
    }
}

/// `view_arr` maps each element to its value, in place.
pub proof fn lemma_view_arr(s: Seq<Json>)
    ensures
        view_arr(s).len() == s.len(),
        forall|i: int| 0 <= i < s.len() ==> view_arr(s)[i] == view_json(s[i]),
    decreases s.len(),
{
    if s.len() == 0 {
    } else {
        lemma_view_arr(s.drop_first());
    }
}

/// `view_obj` maps each entry to its key characters and value, in place.
pub proof fn lemma_view_obj(s: Seq<(String, Json)>)
    ensures
        view_obj(s).len() == s.len(),
        forall|i: int| 0 <= i < s.len() ==> view_obj(s)[i] == (s[i].0@, view_json(s[i].1)),
    decreases s.len(),
{
    if s.len() == 0 {
    } else {
        lemma_view_obj(s.drop_first());
    }
}

/// One more element's value appears at the end, in place.
pub proof fn lemma_view_arr_push(s: Seq<Json>, x: Json)
    ensures
        view_arr(s.push(x)) == view_arr(s).push(view_json(x)),
{
    let p = s.push(x);
    lemma_view_arr(s);
    lemma_view_arr(p);
    assert(view_arr(p) =~= view_arr(s).push(view_json(x)));
}

/// One more entry's key and value appear at the end, in place.
pub proof fn lemma_view_obj_push(s: Seq<(String, Json)>, x: (String, Json))
    ensures
        view_obj(s.push(x)) == view_obj(s).push((x.0@, view_json(x.1))),
{
    let p = s.push(x);
    lemma_view_obj(s);
    lemma_view_obj(p);
    assert(view_obj(p) =~= view_obj(s).push((x.0@, view_json(x.1))));
}

/// The canonical text of a JSON value.
pub open spec fn ser(v: JsonV) -> Seq<char>
    decreases v,
{
    match v {
        JsonV::Null => "null"@,
        JsonV::Bool(b) => if b {
            "true"@
        } else {
            "false"@
        },
        JsonV::Text(s) => "\""@ + s + "\""@,
        JsonV::Arr(elems) => "["@ + ser_list(elems) + "]"@,
        JsonV::Obj(entries) => "{"@ + ser_entries(entries) + "}"@,
    }
}

/// Array elements joined by single commas: every element but the last is
/// followed by a comma, the last is not.
pub open spec fn ser_list(elems: Seq<JsonV>) -> Seq<char>
    decreases elems,
{
    if elems.len() == 0 {
        Seq::empty()
    } else if elems.len() == 1 {
        ser(elems[0])
    } else {
        ser(elems[0]) + ","@ + ser_list(elems.drop_first())
    }
}

/// One object entry: the quoted key, a colon, and the value's text.
pub open spec fn ser_entry(e: (Seq<char>, JsonV)) -> Seq<char>
    decreases e,
{
    "\""@ + e.0 + "\":"@ + ser(e.1)
}

/// Object entries joined by single commas, as `ser_list` joins elements.
pub open spec fn ser_entries(entries: Seq<(Seq<char>, JsonV)>) -> Seq<char>
    decreases entries,
{
    if entries.len() == 0 {
        Seq::empty()
    } else if entries.len() == 1 {
        ser_entry(entries[0])
    } else {
        ser_entry(entries[0]) + ","@ + ser_entries(entries.drop_first())
    }
}

/// Appending one more element appends a comma first, unless the run was empty.
pub proof fn lemma_ser_list_snoc(s: Seq<JsonV>, x: JsonV)
    ensures
        ser_list(s.push(x)) == if s.len() == 0 {
            ser(x)
        } else {
            ser_list(s) + ","@ + ser(x)
        },
    decreases s.len(),
{
    let p = s.push(x);
    if s.len() == 0 {
        assert(p.len() == 1);
        assert(p[0] == x);
    } else {
        assert(p[0] == s[0]);
        assert(p.drop_first() =~= s.drop_first().push(x));
        lemma_ser_list_snoc(s.drop_first(), x);
        if s.len() == 1 {
            assert(s.drop_first().len() == 0);
            assert(ser_list(p) == ser(s[0]) + ","@ + ser(x));
        } else {
            assert(ser_list(s) == ser(s[0]) + ","@ + ser_list(s.drop_first()));
            assert(ser_list(p) == ser(p[0]) + ","@ + ser_list(p.drop_first()));
            assert((ser(s[0]) + ","@ + ser_list(s.drop_first())) + ","@ + ser(x) =~= ser(s[0])
                + ","@ + (ser_list(s.drop_first()) + ","@ + ser(x)));
        }
    }
}

/// Appending one more entry appends a comma first, unless the run was empty.
pub proof fn lemma_ser_entries_snoc(s: Seq<(Seq<char>, JsonV)>, x: (Seq<char>, JsonV))
    ensures
        ser_entries(s.push(x)) == if s.len() == 0 {
            ser_entry(x)
        } else {
            ser_entries(s) + ","@ + ser_entry(x)
        },
    decreases s.len(),
{
    let p = s.push(x);
    if s.len() == 0 {
        assert(p.len() == 1);
        assert(p[0] == x);
    } else {
        assert(p[0] == s[0]);
        assert(p.drop_first() =~= s.drop_first().push(x));
        lemma_ser_entries_snoc(s.drop_first(), x);
        if s.len() == 1 {
            assert(s.drop_first().len() == 0);
            assert(ser_entries(p) == ser_entry(s[0]) + ","@ + ser_entry(x));
        } else {
            assert((ser_entry(s[0]) + ","@ + ser_entries(s.drop_first())) + ","@ + ser_entry(x)
                =~= ser_entry(s[0]) + ","@ + (ser_entries(s.drop_first()) + ","@ + ser_entry(x)));
        }
    }
}

/// Writes the canonical text of `j` onto the end of `out`.
pub fn write_json(j: &Json, out: &mut String)
    ensures
        final(out)@ == old(out)@ + ser(view_json(*j)),
    decreases *j,
{
    match j {
        Json::Null => {
            out.append("null");
        },
        Json::Bool(b) => {
            if *b {
                out.append("true");
            } else {
                out.append("false");
            }
        },
        Json::Text(s) => {
            out.append("\"");
            out.append(s.as_str());
            out.append("\"");
            assert(out@ =~= old(out)@ + ("\""@ + s@ + "\""@));
        },
        Json::Arr(elems) => {
            proof {
                lemma_view_arr(elems@);
            }
            let ghost va = view_arr(elems@);
            out.append("[");
            let ghost base = out@;
            let mut i: usize = 0;
            while i < elems.len()
                invariant
                    i <= elems@.len(),
                    va == view_arr(elems@),
                    va.len() == elems@.len(),
                    forall|k: int| 0 <= k < elems@.len() ==> va[k] == view_json(elems@[k]),
                    out@ == base + ser_list(va.subrange(0, i as int)),
                    forall|k: int|
                        0 <= k < elems@.len() ==> decreases_to!(*j => elems@[k]),
                decreases elems@.len() - i,
            {
                let ghost before = out@;
                if i > 0 {
                    out.append(",");
                }
                write_json(&elems[i], out);
                proof {
                    let prefix = va.subrange(0, i as int);
                    assert(va.subrange(0, i + 1) =~= prefix.push(va[i as int]));
                    lemma_ser_list_snoc(prefix, va[i as int]);
                    if i > 0 {
                        assert(out@ =~= base + ser_list(va.subrange(0, i + 1)));
                    } else {
                        assert(prefix.len() == 0);
                        assert(out@ =~= base + ser_list(va.subrange(0, i + 1)));
                    }
                }
                i = i + 1;
            }
            out.append("]");
            proof {
                assert(va.subrange(0, va.len() as int) =~= va);
                assert(out@ =~= old(out)@ + ("["@ + ser_list(va) + "]"@));
            }
        },
        Json::Obj(entries) => {
            proof {
                lemma_view_obj(entries@);
            }
            let ghost vo = view_obj(entries@);
            out.append("{");
            let ghost base = out@;
            let mut i: usize = 0;
            while i < entries.len()
                invariant
                    i <= entries@.len(),
                    vo == view_obj(entries@),
                    vo.len() == entries@.len(),
                    forall|k: int|
                        0 <= k < entries@.len() ==> vo[k] == (
                            entries@[k].0@,
                            view_json(entries@[k].1),
                        ),
                    out@ == base + ser_entries(vo.subrange(0, i as int)),
                    forall|k: int|
                        0 <= k < entries@.len() ==> decreases_to!(*j => entries@[k].1),
                decreases entries@.len() - i,
            {
                if i > 0 {
                    out.append(",");
                }
                let ghost mid = out@;
                out.append("\"");
                out.append(entries[i].0.as_str());
                out.append("\":");
                write_json(&entries[i].1, out);
                proof {
                    let prefix = vo.subrange(0, i as int);
                    assert(vo.subrange(0, i + 1) =~= prefix.push(vo[i as int]));
                    lemma_ser_entries_snoc(prefix, vo[i as int]);
                    assert(out@ =~= mid + ser_entry(vo[i as int]));
                    if i > 0 {
                        assert(out@ =~= base + ser_entries(vo.subrange(0, i + 1)));
                    } else {
                        assert(prefix.len() == 0);
                        assert(out@ =~= base + ser_entries(vo.subrange(0, i + 1)));
                    }
                }
                i = i + 1;
            }
            out.append("}");
            proof {
                assert(vo.subrange(0, vo.len() as int) =~= vo);
                assert(out@ =~= old(out)@ + ("{"@ + ser_entries(vo) + "}"@));
            }
        },
    }
}

/// The canonical text of `j`, as a fresh string.
pub fn json_to_text(j: &Json) -> (r: String)
    ensures
        r@ == ser(view_json(*j)),
{
    let mut out = String::new();
    write_json(j, &mut out);
    proof {
        assert(out@ =~= ser(view_json(*j)));
    }
    out
}

} // verus!
