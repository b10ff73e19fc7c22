use crate::errors::FixtureError;
use crate::fixture::{Data, DataModel, Json, JsonModel};
use vstd::prelude::*;

verus! {

/// A JSON document, as handed over by whatever parsed the text: the crate
/// decodes fixture records out of this shape and encodes them back into it.
pub enum JsonValue<T> {
    Null,
    Bool(bool),
    Num(T),
    Str(String),
    Arr(Vec<JsonValue<T>>),
    Obj(Vec<(String, JsonValue<T>)>),
}

/// The mathematical model of a `JsonValue` document.
#[verifier::ext_equal]
pub enum TreeModel<T> {
    Null,
    Bool(bool),
    Num(T),
    Str(Seq<char>),
    Arr(Seq<TreeModel<T>>),
    Obj(Seq<(Seq<char>, TreeModel<T>)>),
}

/// The model of a `JsonValue` document.
pub open spec fn tree_model<T>(v: JsonValue<T>) -> TreeModel<T>
    decreases v,
    via tree_model_decreases::<T>
{
    match v {
        JsonValue::Null => TreeModel::Null,
        JsonValue::Bool(b) => TreeModel::Bool(b),
        JsonValue::Num(x) => TreeModel::Num(x),
        JsonValue::Str(s) => TreeModel::Str(s@),
        JsonValue::Arr(items) => TreeModel::Arr(tree_models(items@)),
        JsonValue::Obj(fields) => TreeModel::Obj(pair_models(fields@)),
    }
}

/// The models of a sequence of documents, element for element.
pub open spec fn tree_models<T>(items: Seq<JsonValue<T>>) -> Seq<TreeModel<T>>
    decreases items,
    via tree_models_decreases::<T>
{
    if items.len() == 0 {
        Seq::<TreeModel<T>>::empty()
    } else {
        seq![tree_model(items[0])] + tree_models(items.drop_first())
    }
}

/// The models of an object's fields: each key viewed, each value modelled.
pub open spec fn pair_models<T>(fields: Seq<(String, JsonValue<T>)>) -> Seq<
    (Seq<char>, TreeModel<T>),
>
    decreases fields,
    via pair_models_decreases::<T>
{
    if fields.len() == 0 {
        Seq::<(Seq<char>, TreeModel<T>)>::empty()
    } else {
        seq![(fields[0].0@, tree_model(fields[0].1))] + pair_models(fields.drop_first())
    }
}

#[via_fn]
proof fn tree_model_decreases<T>(v: JsonValue<T>) {
    broadcast use vstd::std_specs::vec::axiom_vec_decreases_to_view;

    match v {
        JsonValue::Arr(items) => {
            assert(decreases_to!(v => items));
            assert(decreases_to!(items => items@));
        },
        JsonValue::Obj(fields) => {
            assert(decreases_to!(v => fields));
            assert(decreases_to!(fields => fields@));
        },
        _ => {},
    }
}

#[via_fn]
proof fn tree_models_decreases<T>(items: Seq<JsonValue<T>>) {
    broadcast use vstd::seq::axiom_seq_index_decreases, vstd::seq::axiom_seq_subrange_decreases;

    if items.len() > 0 {
        assert(decreases_to!(items => items[0]));
        assert(items.drop_first() == items.subrange(1, items.len() as int));
        assert(decreases_to!(items => items.subrange(1, items.len() as int)));
    }
}

#[via_fn]
proof fn pair_models_decreases<T>(fields: Seq<(String, JsonValue<T>)>) {
    broadcast use vstd::seq::axiom_seq_index_decreases, vstd::seq::axiom_seq_subrange_decreases;

    if fields.len() > 0 {
        assert(decreases_to!(fields => fields[0]));
        assert(decreases_to!(fields[0] => fields[0].1));
        assert(fields.drop_first() == fields.subrange(1, fields.len() as int));
        assert(decreases_to!(fields => fields.subrange(1, fields.len() as int)));
    }
}

impl<T> View for JsonValue<T> {
    type V = TreeModel<T>;

    open spec fn view(&self) -> TreeModel<T> {
        tree_model(*self)
    }
}

/// `tree_models` maps `tree_model` over its input, index for index.
pub proof fn lemma_tree_models_index<T>(items: Seq<JsonValue<T>>)
    ensures
        tree_models(items).len() == items.len(),
        forall|i: int| 0 <= i < items.len() ==> tree_models(items)[i] == tree_model(#[trigger] items[i]),
    decreases items.len(),
{
    if items.len() > 0 {
        lemma_tree_models_index(items.drop_first());
        assert forall|i: int| 0 <= i < items.len() implies tree_models(items)[i] == tree_model(
            #[trigger] items[i],
        ) by {
            if i > 0 {
                assert(items.drop_first()[i - 1] == items[i]);
                assert(tree_models(items)[i] == tree_models(items.drop_first())[i - 1]);
            }
        }
    }
}

/// `pair_models` maps view and `tree_model` over its input, index for index.
pub proof fn lemma_pair_models_index<T>(fields: Seq<(String, JsonValue<T>)>)
    ensures
        pair_models(fields).len() == fields.len(),
        forall|i: int|
            0 <= i < fields.len() ==> pair_models(fields)[i] == ((#[trigger] fields[i]).0@,
            tree_model(fields[i].1)),
    decreases fields.len(),
{
    if fields.len() > 0 {
        lemma_pair_models_index(fields.drop_first());
        assert forall|i: int| 0 <= i < fields.len() implies pair_models(fields)[i] == ((
        #[trigger] fields[i]).0@, tree_model(fields[i].1)) by {
            if i > 0 {
                assert(fields.drop_first()[i - 1] == fields[i]);
                assert(pair_models(fields)[i] == pair_models(fields.drop_first())[i - 1]);
            }
        }
    }
}

/// Decode the `FftFreqVals` payload: an object with number fields `n` and
/// `d`.
pub open spec fn decode_fft<T>(t: TreeModel<T>) -> Option<DataModel<T>> {
    match t {
        TreeModel::Obj(fields) => match (lookup(fields, "n"@), lookup(fields, "d"@)) {
            (Some(TreeModel::Num(n)), Some(TreeModel::Num(d))) => Some(
                DataModel::FftFreqVals { n, d },
            ),
            _ => None,
        },
        _ => None,
    }
}

/// Decode the `ComplexVals` payload: an object with number-array fields
/// `mag` and `phase`.
pub open spec fn decode_complex<T>(t: TreeModel<T>) -> Option<DataModel<T>> {
    match t {
        TreeModel::Obj(fields) => match (lookup(fields, "mag"@), lookup(fields, "phase"@)) {
            (Some(TreeModel::Arr(m)), Some(TreeModel::Arr(p))) => match (nums_of(m), nums_of(p)) {
                (Some(mag), Some(phase)) => Some(DataModel::ComplexVals { mag, phase }),
                _ => None,
            },
            _ => None,
        },
        _ => None,
    }
}

/// Decode the `Array` payload: a plain array of numbers.
pub open spec fn decode_array<T>(t: TreeModel<T>) -> Option<DataModel<T>> {
    match t {
        TreeModel::Arr(items) => match nums_of(items) {
            Some(vals) => Some(DataModel::Array(vals)),
            None => None,
        },
        _ => None,
    }
}

/// Decode the `SineFreqVals` payload: an object with number fields `fsine`,
/// `fsample` and `duration`.
pub open spec fn decode_sine<T>(t: TreeModel<T>) -> Option<DataModel<T>> {
    match t {
        TreeModel::Obj(fields) => match (
            lookup(fields, "fsine"@),
            lookup(fields, "fsample"@),
            lookup(fields, "duration"@),
        ) {
            (
                Some(TreeModel::Num(fsine)),
                Some(TreeModel::Num(fsample)),
                Some(TreeModel::Num(duration)),
            ) => Some(DataModel::SineFreqVals { fsine, fsample, duration }),
            _ => None,
        },
        _ => None,
    }
}

/// Decode a dataset from its externally tagged form: an object with exactly
/// one key, the variant's name, and the variant's payload beneath it.
pub open spec fn decode_data<T>(t: TreeModel<T>) -> Option<DataModel<T>> {
    match t {
        TreeModel::Obj(fields) => {
            if fields.len() != 1 {
                None
            } else {
                let tag = fields[0].0;
                let payload = fields[0].1;
                if tag == "FftFreqVals"@ {
                    decode_fft(payload)
                } else if tag == "ComplexVals"@ {
                    decode_complex(payload)
                } else if tag == "Array"@ {
                    decode_array(payload)
                } else if tag == "SineFreqVals"@ {
                    decode_sine(payload)
                } else {
                    None
                }
            }
        },
        _ => None,
    }
}

/// Decode a fixture record: an object whose `function` and `path` fields
/// are strings and whose `input_data` and `output_data` fields each hold a
/// tagged dataset.
pub open spec fn decode_fixture<T>(t: TreeModel<T>) -> Option<JsonModel<T>> {
    match t {
        TreeModel::Obj(fields) => match (
            lookup(fields, "function"@),
            lookup(fields, "path"@),
            lookup(fields, "input_data"@),
            lookup(fields, "output_data"@),
        ) {
            (Some(TreeModel::Str(function)), Some(TreeModel::Str(path)), Some(di), Some(dout)) => {
                match (decode_data(di), decode_data(dout)) {
                    (Some(input_data), Some(output_data)) => Some(
                        JsonModel { input_data, output_data, function, path },
                    ),
                    _ => None,
                }
            },
            _ => None,
        },
        _ => None,
    }
}

/// Encode a sequence of numbers as array items.
pub open spec fn encode_nums<T>(vals: Seq<T>) -> Seq<TreeModel<T>> {
    Seq::new(vals.len(), |i: int| TreeModel::Num(vals[i]))
}

/// Encode a dataset into its externally tagged form.
pub open spec fn encode_data<T>(d: DataModel<T>) -> TreeModel<T> {
    match d {
        DataModel::FftFreqVals { n, d } => TreeModel::Obj(
            seq![
                (
                    "FftFreqVals"@,
                    TreeModel::Obj(
                        seq![("n"@, TreeModel::Num(n)), ("d"@, TreeModel::Num(d))],
                    ),
                ),
            ],
        ),
        DataModel::ComplexVals { mag, phase } => TreeModel::Obj(
            seq![
                (
                    "ComplexVals"@,
                    TreeModel::Obj(
                        seq![
                            ("mag"@, TreeModel::Arr(encode_nums(mag))),
                            ("phase"@, TreeModel::Arr(encode_nums(phase))),
                        ],
                    ),
                ),
            ],
        ),
        DataModel::Array(vals) => TreeModel::Obj(
            seq![("Array"@, TreeModel::Arr(encode_nums(vals)))],
        ),
        DataModel::SineFreqVals { fsine, fsample, duration } => TreeModel::Obj(
            seq![
                (
                    "SineFreqVals"@,
                    TreeModel::Obj(
                        seq![
                            ("fsine"@, TreeModel::Num(fsine)),
                            ("fsample"@, TreeModel::Num(fsample)),
                            ("duration"@, TreeModel::Num(duration)),
                        ],
                    ),
                ),
            ],
        ),
    }
}

/// Encode a fixture record, fields in declaration order.
pub open spec fn encode_fixture<T>(j: JsonModel<T>) -> TreeModel<T> {
    TreeModel::Obj(
        seq![
            ("input_data"@, encode_data(j.input_data)),
            ("output_data"@, encode_data(j.output_data)),
            ("function"@, TreeModel::Str(j.function)),
            ("path"@, TreeModel::Str(j.path)),
        ],
    )
}

/// The first value bound to `key` in an object's fields, if any.
pub open spec fn lookup<T>(fields: Seq<(Seq<char>, TreeModel<T>)>, key: Seq<char>) -> Option<
    TreeModel<T>,
>
    decreases fields.len(),
{
    if fields.len() == 0 {
        None
    } else if fields[0].0 == key {
        Some(fields[0].1)
    } else {
        lookup(fields.drop_first(), key)
    }
}

/// The numbers held by an array's items, provided every item is a number.
pub open spec fn nums_of<T>(items: Seq<TreeModel<T>>) -> Option<Seq<T>>
    decreases items.len(),
{
    if items.len() == 0 {
        Some(Seq::<T>::empty())
    } else {
        match nums_of(items.drop_last()) {
            Some(pre) => match items.last() {
                TreeModel::Num(x) => Some(pre.push(x)),
                _ => None,
            },
            None => None,
        }
    }
}

/// Reading back an encoded number array yields the numbers unchanged.
pub proof fn lemma_nums_round_trip<T>(vals: Seq<T>)
    ensures
        nums_of(encode_nums(vals)) == Some(vals),
    decreases vals.len(),
{
    if vals.len() == 0 {
        assert(encode_nums(vals) =~= Seq::<TreeModel<T>>::empty());
    } else {
        lemma_nums_round_trip(vals.drop_last());
        assert(encode_nums(vals).drop_last() =~= encode_nums(vals.drop_last()));
        assert(encode_nums(vals).last() == TreeModel::Num(vals.last()));
        assert(vals.drop_last().push(vals.last()) =~= vals);
    }
}

/// Distinctness of the four variant tags and of each payload's field keys.
proof fn lemma_keys_distinct()
    ensures
        "FftFreqVals"@ != "ComplexVals"@,
        "FftFreqVals"@ != "Array"@,
        "FftFreqVals"@ != "SineFreqVals"@,
        "ComplexVals"@ != "Array"@,
        "ComplexVals"@ != "SineFreqVals"@,
        "Array"@ != "SineFreqVals"@,
        "n"@ != "d"@,
        "mag"@ != "phase"@,
        "fsine"@ != "fsample"@,
        "fsine"@ != "duration"@,
        "fsample"@ != "duration"@,
        "input_data"@ != "output_data"@,
        "input_data"@ != "function"@,
        "input_data"@ != "path"@,
        "output_data"@ != "function"@,
        "output_data"@ != "path"@,
        "function"@ != "path"@,
{
    reveal_strlit("FftFreqVals");
    reveal_strlit("ComplexVals");
    reveal_strlit("Array");
    reveal_strlit("SineFreqVals");
    reveal_strlit("n");
    reveal_strlit("d");
    reveal_strlit("mag");
    reveal_strlit("phase");
    reveal_strlit("fsine");
    reveal_strlit("fsample");
    reveal_strlit("duration");
    reveal_strlit("input_data");
    reveal_strlit("output_data");
    reveal_strlit("function");
    reveal_strlit("path");
    assert(("FftFreqVals"@)[0] == 'F' && ("ComplexVals"@)[0] == 'C' && ("SineFreqVals"@)[0] == 'S');
    assert(("n"@)[0] == 'n' && ("d"@)[0] == 'd');
    assert(("fsine"@).len() == 5 && ("fsample"@).len() == 7 && ("duration"@).len() == 8);
    assert(("mag"@).len() == 3 && ("phase"@).len() == 5);
    assert(("Array"@).len() == 5);
    assert(("input_data"@).len() == 10 && ("output_data"@).len() == 11 && ("function"@).len() == 8
        && ("path"@).len() == 4);
}

/// In a field list whose earlier keys all differ from the key at `i`, a
/// lookup of that key finds exactly the value at `i`.
proof fn lemma_lookup_at<T>(fields: Seq<(Seq<char>, TreeModel<T>)>, i: int)
    requires
        0 <= i < fields.len(),
        forall|j: int| 0 <= j < i ==> (#[trigger] fields[j]).0 != fields[i].0,
    ensures
        lookup(fields, fields[i].0) == Some(fields[i].1),
    decreases i,
{
    if i > 0 {
        assert(fields[0].0 != fields[i].0);
        assert forall|j: int| 0 <= j < i - 1 implies (#[trigger] fields.drop_first()[j]).0
            != fields.drop_first()[i - 1].0 by {
            assert(fields.drop_first()[j] == fields[j + 1]);
            assert(fields.drop_first()[i - 1] == fields[i]);
        }
        lemma_lookup_at(fields.drop_first(), i - 1);
        assert(fields.drop_first()[i - 1] == fields[i]);
    }
}

/// Decoding an encoded dataset yields the dataset unchanged: the tagged
/// encoding loses nothing.
pub proof fn lemma_data_round_trip<T>(d: DataModel<T>)
    ensures
        decode_data(encode_data(d)) == Some(d),
{
    lemma_keys_distinct();
    match d {
        DataModel::FftFreqVals { n: nv, d: dv } => {
            let pf = seq![("n"@, TreeModel::<T>::Num(nv)), ("d"@, TreeModel::<T>::Num(dv))];
            lemma_lookup_at(pf, 0);
            lemma_lookup_at(pf, 1);
            assert(decode_fft(TreeModel::Obj(pf)) == Some(DataModel::<T>::FftFreqVals {
                n: nv,
                d: dv,
            }));
        },
        DataModel::ComplexVals { mag, phase } => {
            lemma_nums_round_trip(mag);
            lemma_nums_round_trip(phase);
            let pf = seq![
                ("mag"@, TreeModel::<T>::Arr(encode_nums(mag))),
                ("phase"@, TreeModel::<T>::Arr(encode_nums(phase))),
            ];
            lemma_lookup_at(pf, 0);
            lemma_lookup_at(pf, 1);
            assert(decode_complex(TreeModel::Obj(pf)) == Some(DataModel::<T>::ComplexVals {
                mag,
                phase,
            }));
        },
        DataModel::Array(vals) => {
            lemma_nums_round_trip(vals);
        },
        DataModel::SineFreqVals { fsine, fsample, duration } => {
            let pf = seq![
                ("fsine"@, TreeModel::<T>::Num(fsine)),
                ("fsample"@, TreeModel::<T>::Num(fsample)),
                ("duration"@, TreeModel::<T>::Num(duration)),
            ];
            lemma_lookup_at(pf, 0);
            lemma_lookup_at(pf, 1);
            lemma_lookup_at(pf, 2);
            assert(decode_sine(TreeModel::Obj(pf)) == Some(DataModel::<T>::SineFreqVals {
                fsine,
                fsample,
                duration,
            }));
        },
    }
}

/// Whether an executable string equals a key literal.
fn string_eq_lit(a: &String, b: &str) -> (r: bool)
    ensures
        r == (a@ == b@),
{
    let bs: String = b.to_owned();
    *a == bs
}

/// The position of `k` among `keys`, if it occurs.
fn find_key(keys: &Vec<String>, k: &String) -> (r: Option<usize>)
    ensures
        match r {
            Some(j) => j < keys@.len() && keys.deep_view()[j as int] == k@,
            None => forall|q: int| 0 <= q < keys@.len() ==> #[trigger] keys.deep_view()[q] != k@,
        },
{
    let mut j: usize = 0;
    while j < keys.len()
        invariant
            j <= keys@.len(),
            forall|q: int| 0 <= q < j ==> #[trigger] keys.deep_view()[q] != k@,
        decreases keys@.len() - j,
    {
        proof {
            assert(keys.deep_view()[j as int] == keys@[j as int]@);
        }
        if keys[j] == *k {
            return Some(j);
        }
        j = j + 1;
    }
    None
}

/// Pull the values bound to `keys` out of an object's fields, first
/// occurrence of each key first. All keys must be found for the extraction
/// to succeed.
fn take_fields<T>(fields: Vec<(String, JsonValue<T>)>, keys: &Vec<String>) -> (r: Result<
    Vec<JsonValue<T>>,
    FixtureError,
>)
    requires
        forall|a: int, b: int|
            0 <= a < b < keys@.len() ==> keys.deep_view()[a] != keys.deep_view()[b],
    ensures
        match r {
            Ok(vals) => ({
                &&& vals@.len() == keys@.len()
                &&& forall|i: int|
                    0 <= i < keys@.len() ==> lookup(pair_models(fields@), keys.deep_view()[i])
                        == Some(tree_model(#[trigger] vals@[i]))
            }),
            Err(e) => ({
                &&& e == FixtureError::DeserializationFailure
                &&& exists|i: int|
                    0 <= i < keys@.len() && lookup(
                        pair_models(fields@),
                        #[trigger] keys.deep_view()[i],
                    ) is None
            }),
        },
{
    let ghost orig = pair_models(fields@);
    let mut slots: Vec<Option<JsonValue<T>>> = Vec::new();
    let mut s: usize = 0;
    while s < keys.len()
        invariant
            s <= keys@.len(),
            slots@.len() == s,
            forall|i: int| 0 <= i < s ==> #[trigger] slots@[i] is None,
        decreases keys@.len() - s,
    {
        slots.push(None);
        s = s + 1;
    }
    let mut rest = fields;
    while rest.len() > 0
        invariant
            slots@.len() == keys@.len(),
            orig == pair_models(fields@),
            forall|a: int, b: int|
                0 <= a < b < keys@.len() ==> keys.deep_view()[a] != keys.deep_view()[b],
            forall|i: int|
                0 <= i < keys@.len() ==> match #[trigger] slots@[i] {
                    Some(v) => lookup(orig, keys.deep_view()[i]) == Some(tree_model(v)),
                    None => lookup(orig, keys.deep_view()[i]) == lookup(
                        pair_models(rest@),
                        keys.deep_view()[i],
                    ),
                },
        decreases rest@.len(),
    {
        let ghost prev = rest@;
        let pair = rest.remove(0);
        let k = pair.0;
        let v = pair.1;
        proof {
            assert(rest@ =~= prev.drop_first());
            assert(pair_models(prev)[0] == (k@, tree_model(v)));
            assert(pair_models(prev).drop_first() =~= pair_models(prev.drop_first()));
        }
        match find_key(keys, &k) {
            Some(j) => {
                let ghost old_slots = slots@;
                if slots[j].is_none() {
                    slots.set(j, Some(v));
                }
                proof {
                    assert forall|i: int| 0 <= i < keys@.len() implies match #[trigger] slots@[i] {
                        Some(v2) => lookup(orig, keys.deep_view()[i]) == Some(tree_model(v2)),
                        None => lookup(orig, keys.deep_view()[i]) == lookup(
                            pair_models(rest@),
                            keys.deep_view()[i],
                        ),
                    } by {
                        if i == j {
                            if old_slots[i] is None {
                                assert(lookup(pair_models(prev), keys.deep_view()[i])
                                    == Some(tree_model(v)));
                            }
                        } else {
                            assert(keys.deep_view()[i] != k@);
                            assert(lookup(pair_models(prev), keys.deep_view()[i]) == lookup(
                                pair_models(prev.drop_first()),
                                keys.deep_view()[i],
                            ));
                        }
                    }
                }
            },
            None => {
                proof {
                    assert forall|i: int| 0 <= i < keys@.len() implies lookup(
                        pair_models(prev),
                        #[trigger] keys.deep_view()[i],
                    ) == lookup(pair_models(rest@), keys.deep_view()[i]) by {
                        assert(keys.deep_view()[i] != k@);
                    }
                }
            },
        }
    }
    proof {
        assert(pair_models(rest@) =~= Seq::<(Seq<char>, TreeModel<T>)>::empty());
    }
    let mut out: Vec<JsonValue<T>> = Vec::new();
    let mut slots_rest = slots;
    while slots_rest.len() > 0
        invariant
            out@.len() + slots_rest@.len() == keys@.len(),
            forall|i: int|
                0 <= i < out@.len() ==> lookup(orig, keys.deep_view()[i]) == Some(tree_model(
                    #[trigger] out@[i],
                )),
            forall|i: int|
                0 <= i < slots_rest@.len() ==> match #[trigger] slots_rest@[i] {
                    Some(v) => lookup(orig, keys.deep_view()[out@.len() + i]) == Some(tree_model(
                        v,
                    )),
                    None => lookup(orig, keys.deep_view()[out@.len() + i]) is None,
                },
            orig == pair_models(fields@),
        decreases slots_rest@.len(),
    {
        let ghost prev_slots = slots_rest@;
        let slot = slots_rest.remove(0);
        proof {
            assert(slots_rest@ =~= prev_slots.drop_first());
        }
        match slot {
            Some(v) => {
                out.push(v);
            },
            None => {
                return Err(FixtureError::DeserializationFailure);
            },
        }
    }
    Ok(out)
}

/// An array with a non-number item holds no number sequence.
proof fn lemma_nums_of_none<T>(items: Seq<TreeModel<T>>, i: int)
    requires
        0 <= i < items.len(),
        !(items[i] is Num),
    ensures
        nums_of(items) is None,
    decreases items.len(),
{
    if i < items.len() - 1 {
        lemma_nums_of_none(items.drop_last(), i);
    }
}

/// The number behind a document node, when the node is a number.
fn as_num<T>(v: JsonValue<T>) -> (r: Result<T, FixtureError>)
    ensures
        match r {
            Ok(x) => tree_model(v) == TreeModel::Num(x),
            Err(e) => e == FixtureError::DeserializationFailure && !(tree_model(v) is Num),
        },
{
    match v {
        JsonValue::Num(x) => Ok(x),
        _ => Err(FixtureError::DeserializationFailure),
    }
}

/// The string behind a document node, when the node is a string.
fn as_text<T>(v: JsonValue<T>) -> (r: Result<String, FixtureError>)
    ensures
        match r {
            Ok(s) => tree_model(v) == TreeModel::<T>::Str(s@),
            Err(e) => e == FixtureError::DeserializationFailure && !(tree_model(v) is Str),
        },
{
    match v {
        JsonValue::Str(s) => Ok(s),
        _ => Err(FixtureError::DeserializationFailure),
    }
}

/// The numbers behind a document node, when the node is an array of
/// numbers.
#[verifier::loop_isolation(false)]
fn as_num_list<T>(v: JsonValue<T>) -> (r: Result<Vec<T>, FixtureError>)
    ensures
        match r {
            Ok(xs) => (match tree_model(v) {
                TreeModel::Arr(items) => nums_of(items) == Some(xs@),
                _ => false,
            }),
            Err(e) => e == FixtureError::DeserializationFailure && (match tree_model(v) {
                TreeModel::Arr(items) => nums_of(items) is None,
                _ => true,
            }),
        },
{
    let ghost vm = tree_model(v);
    let items = match v {
        JsonValue::Arr(it) => it,
        _ => {
            return Err(FixtureError::DeserializationFailure);
        },
    };
    let ghost orig = items@;
    proof {
        assert(vm == TreeModel::Arr(tree_models(orig)));
        lemma_tree_models_index(orig);
    }
    let mut out: Vec<T> = Vec::new();
    let mut rest = items;
    while rest.len() > 0
        invariant
            vm == TreeModel::Arr(tree_models(orig)),
            out@.len() + rest@.len() == orig.len(),
            rest@ == orig.skip(out@.len() as int),
            nums_of(tree_models(orig).take(out@.len() as int)) == Some(out@),
            tree_models(orig).len() == orig.len(),
            forall|i: int|
                0 <= i < orig.len() ==> tree_models(orig)[i] == tree_model(#[trigger] orig[i]),
        decreases rest@.len(),
    {
        let ghost prev = rest@;
        let ghost done = out@.len() as int;
        let item = rest.remove(0);
        proof {
            assert(rest@ =~= prev.drop_first());
            assert(item == orig[done]);
            assert(rest@ =~= orig.skip(done + 1));
        }
        match item {
            JsonValue::Num(x) => {
                out.push(x);
                proof {
                    let m = tree_models(orig);
                    assert(m.take(done + 1).drop_last() =~= m.take(done));
                    assert(m.take(done + 1).last() == TreeModel::Num(x));
                }
            },
            _ => {
                proof {
                    assert(tree_models(orig)[done] == tree_model(item));
                    lemma_nums_of_none(tree_models(orig), done);
                }
                return Err(FixtureError::DeserializationFailure);
            },
        }
    }
    proof {
        assert(tree_models(orig).take(orig.len() as int) =~= tree_models(orig));
    }
    Ok(out)
}

/// Decode an executable dataset from its externally tagged document.
#[verifier::loop_isolation(false)]
pub fn data_of_tree<T>(t: JsonValue<T>) -> (r: Result<Data<T>, FixtureError>)
    ensures
        match r {
            Ok(d) => decode_data(tree_model(t)) == Some(d@),
            Err(e) => e == FixtureError::DeserializationFailure && decode_data(
                tree_model(t),
            ) is None,
        },
{
    let ghost tm = tree_model(t);
    let mut fields = match t {
        JsonValue::Obj(f) => f,
        _ => {
            return Err(FixtureError::DeserializationFailure);
        },
    };
    let ghost gf = fields@;
    proof {
        assert(tm == TreeModel::Obj(pair_models(gf)));
        lemma_pair_models_index(gf);
        lemma_keys_distinct();
    }
    if fields.len() != 1 {
        return Err(FixtureError::DeserializationFailure);
    }
    let pair = fields.remove(0);
    let tag = pair.0;
    let payload = pair.1;
    proof {
        assert(pair_models(gf)[0] == (tag@, tree_model(payload)));
    }
    if string_eq_lit(&tag, "FftFreqVals") {
        let pf = match payload {
            JsonValue::Obj(f) => f,
            _ => {
                return Err(FixtureError::DeserializationFailure);
            },
        };
        let keys: Vec<String> = vec![String::from_str("n"), String::from_str("d")];
        proof {
            assert(keys.deep_view()[0] == "n"@);
            assert(keys.deep_view()[1] == "d"@);
        }
        let mut vals = match take_fields(pf, &keys) {
            Ok(v) => v,
            Err(e) => {
                return Err(e);
            },
        };
        let v_n = vals.remove(0);
        let v_d = vals.remove(0);
        let n = match as_num(v_n) {
            Ok(x) => x,
            Err(e) => {
                return Err(e);
            },
        };
        let d = match as_num(v_d) {
            Ok(x) => x,
            Err(e) => {
                return Err(e);
            },
        };
        Ok(Data::FftFreqVals { n, d })
    } else if string_eq_lit(&tag, "ComplexVals") {
        let pf = match payload {
            JsonValue::Obj(f) => f,
            _ => {
                return Err(FixtureError::DeserializationFailure);
            },
        };
        let keys: Vec<String> = vec![String::from_str("mag"), String::from_str("phase")];
        proof {
            assert(keys.deep_view()[0] == "mag"@);
            assert(keys.deep_view()[1] == "phase"@);
        }
        let mut vals = match take_fields(pf, &keys) {
            Ok(v) => v,
            Err(e) => {
                return Err(e);
            },
        };
        let v_mag = vals.remove(0);
        let v_phase = vals.remove(0);
        let mag = match as_num_list(v_mag) {
            Ok(xs) => xs,
            Err(e) => {
                return Err(e);
            },
        };
        let phase = match as_num_list(v_phase) {
            Ok(xs) => xs,
            Err(e) => {
                return Err(e);
            },
        };
        Ok(Data::ComplexVals { mag, phase })
    } else if string_eq_lit(&tag, "Array") {
        let vals = match as_num_list(payload) {
            Ok(xs) => xs,
            Err(e) => {
                return Err(e);
            },
        };
        Ok(Data::Array(vals))
    } else if string_eq_lit(&tag, "SineFreqVals") {
        let pf = match payload {
            JsonValue::Obj(f) => f,
            _ => {
                return Err(FixtureError::DeserializationFailure);
            },
        };
        let keys: Vec<String> = vec![
            String::from_str("fsine"),
            String::from_str("fsample"),
            String::from_str("duration"),
        ];
        proof {
            assert(keys.deep_view()[0] == "fsine"@);
            assert(keys.deep_view()[1] == "fsample"@);
            assert(keys.deep_view()[2] == "duration"@);
        }
        let mut vals = match take_fields(pf, &keys) {
            Ok(v) => v,
            Err(e) => {
                return Err(e);
            },
        };
        let v_fsine = vals.remove(0);
        let v_fsample = vals.remove(0);
        let v_duration = vals.remove(0);
        let fsine = match as_num(v_fsine) {
            Ok(x) => x,
            Err(e) => {
                return Err(e);
            },
        };
        let fsample = match as_num(v_fsample) {
            Ok(x) => x,
            Err(e) => {
                return Err(e);
            },
        };
        let duration = match as_num(v_duration) {
            Ok(x) => x,
            Err(e) => {
                return Err(e);
            },
        };
        Ok(Data::SineFreqVals { fsine, fsample, duration })
    } else {
        Err(FixtureError::DeserializationFailure)
    }
}

/// Decode an executable fixture record from a parsed document.
pub fn fixture_of_tree<T>(t: JsonValue<T>) -> (r: Result<Json<T>, FixtureError>)
    ensures
        match r {
            Ok(j) => decode_fixture(tree_model(t)) == Some(j@),
            Err(e) => e == FixtureError::DeserializationFailure && decode_fixture(
                tree_model(t),
            ) is None,
        },
{
    let ghost tm = tree_model(t);
    let fields = match t {
        JsonValue::Obj(f) => f,
        _ => {
            return Err(FixtureError::DeserializationFailure);
        },
    };
    let ghost gf = fields@;
    proof {
        assert(tm == TreeModel::Obj(pair_models(gf)));
        lemma_keys_distinct();
    }
    let keys: Vec<String> = vec![
        String::from_str("function"),
        String::from_str("path"),
        String::from_str("input_data"),
        String::from_str("output_data"),
    ];
    proof {
        assert(keys.deep_view()[0] == "function"@);
        assert(keys.deep_view()[1] == "path"@);
        assert(keys.deep_view()[2] == "input_data"@);
        assert(keys.deep_view()[3] == "output_data"@);
    }
    let mut vals = match take_fields(fields, &keys) {
        Ok(v) => v,
        Err(e) => {
            return Err(e);
        },
    };
    let v_function = vals.remove(0);
    let v_path = vals.remove(0);
    let v_input = vals.remove(0);
    let v_output = vals.remove(0);
    let function = match as_text(v_function) {
        Ok(s) => s,
        Err(e) => {
            return Err(e);
        },
    };
    let path = match as_text(v_path) {
        Ok(s) => s,
        Err(e) => {
            return Err(e);
        },
    };
    let input_data = match data_of_tree(v_input) {
        Ok(d) => d,
        Err(e) => {
            return Err(e);
        },
    };
    let output_data = match data_of_tree(v_output) {
        Ok(d) => d,
        Err(e) => {
            return Err(e);
        },
    };
    Ok(Json { input_data, output_data, function, path })
}

/// Encode a vector of numbers as array items.
#[verifier::loop_isolation(false)]
fn trees_of_nums<T>(vals: Vec<T>) -> (r: Vec<JsonValue<T>>)
    ensures
        tree_models(r@) == encode_nums(vals@),
{
    let ghost orig = vals@;
    let mut out: Vec<JsonValue<T>> = Vec::new();
    let mut rest = vals;
    while rest.len() > 0
        invariant
            out@.len() + rest@.len() == orig.len(),
            rest@ == orig.skip(out@.len() as int),
            forall|i: int|
                0 <= i < out@.len() ==> tree_model(#[trigger] out@[i]) == TreeModel::Num(orig[i]),
        decreases rest@.len(),
    {
        let ghost prev = rest@;
        let ghost done = out@.len() as int;
        let x = rest.remove(0);
        proof {
            assert(rest@ =~= prev.drop_first());
            assert(x == orig[done]);
            assert(rest@ =~= orig.skip(done + 1));
        }
        out.push(JsonValue::Num(x));
    }
    proof {
        lemma_tree_models_index(out@);
        assert forall|i: int| 0 <= i < out@.len() implies tree_models(out@)[i] == encode_nums(
            orig,
        )[i] by {
            assert(tree_model(out@[i]) == TreeModel::Num(orig[i]));
        }
        assert(tree_models(out@) =~= encode_nums(orig));
    }
    out
}

/// Encode an executable dataset into its externally tagged document.
pub fn tree_of_data<T>(d: Data<T>) -> (t: JsonValue<T>)
    ensures
        tree_model(t) == encode_data(d@),
{
    match d {
        Data::FftFreqVals { n, d } => {
            let pf: Vec<(String, JsonValue<T>)> = vec![
                (String::from_str("n"), JsonValue::Num(n)),
                (String::from_str("d"), JsonValue::Num(d)),
            ];
            let payload = JsonValue::Obj(pf);
            let outer: Vec<(String, JsonValue<T>)> = vec![
                (String::from_str("FftFreqVals"), payload),
            ];
            let t = JsonValue::Obj(outer);
            proof {
                lemma_pair_models_index(pf@);
                assert(pair_models(pf@) =~= seq![
                    ("n"@, TreeModel::<T>::Num(n)),
                    ("d"@, TreeModel::<T>::Num(d)),
                ]);
                lemma_pair_models_index(outer@);
                assert(pair_models(outer@) =~= seq![
                    ("FftFreqVals"@, TreeModel::Obj(pair_models(pf@))),
                ]);
            }
            t
        },
        Data::ComplexVals { mag, phase } => {
            let mag_items = trees_of_nums(mag);
            let phase_items = trees_of_nums(phase);
            let pf: Vec<(String, JsonValue<T>)> = vec![
                (String::from_str("mag"), JsonValue::Arr(mag_items)),
                (String::from_str("phase"), JsonValue::Arr(phase_items)),
            ];
            let payload = JsonValue::Obj(pf);
            let outer: Vec<(String, JsonValue<T>)> = vec![
                (String::from_str("ComplexVals"), payload),
            ];
            let t = JsonValue::Obj(outer);
            proof {
                lemma_pair_models_index(pf@);
                assert(pair_models(pf@) =~= seq![
                    ("mag"@, TreeModel::<T>::Arr(tree_models(mag_items@))),
                    ("phase"@, TreeModel::<T>::Arr(tree_models(phase_items@))),
                ]);
                lemma_pair_models_index(outer@);
                assert(pair_models(outer@) =~= seq![
                    ("ComplexVals"@, TreeModel::Obj(pair_models(pf@))),
                ]);
            }
            t
        },
        Data::Array(vals) => {
            let items = trees_of_nums(vals);
            let payload = JsonValue::Arr(items);
            let outer: Vec<(String, JsonValue<T>)> = vec![(String::from_str("Array"), payload)];
            let t = JsonValue::Obj(outer);
            proof {
                lemma_pair_models_index(outer@);
                assert(pair_models(outer@) =~= seq![
                    ("Array"@, TreeModel::<T>::Arr(tree_models(items@))),
                ]);
            }
            t
        },
        Data::SineFreqVals { fsine, fsample, duration } => {
            let pf: Vec<(String, JsonValue<T>)> = vec![
                (String::from_str("fsine"), JsonValue::Num(fsine)),
                (String::from_str("fsample"), JsonValue::Num(fsample)),
                (String::from_str("duration"), JsonValue::Num(duration)),
            ];
            let payload = JsonValue::Obj(pf);
            let outer: Vec<(String, JsonValue<T>)> = vec![
                (String::from_str("SineFreqVals"), payload),
            ];
            let t = JsonValue::Obj(outer);
            proof {
                lemma_pair_models_index(pf@);
                assert(pair_models(pf@) =~= seq![
                    ("fsine"@, TreeModel::<T>::Num(fsine)),
                    ("fsample"@, TreeModel::<T>::Num(fsample)),
                    ("duration"@, TreeModel::<T>::Num(duration)),
                ]);
                lemma_pair_models_index(outer@);
                assert(pair_models(outer@) =~= seq![
                    ("SineFreqVals"@, TreeModel::Obj(pair_models(pf@))),
                ]);
            }
            t
        },
    }
}

/// Encode an executable fixture record into a document, fields in
/// declaration order.
pub fn tree_of_fixture<T>(j: Json<T>) -> (t: JsonValue<T>)
    ensures
        tree_model(t) == encode_fixture(j@),
{
    let ghost jm = j@;
    let Json { input_data, output_data, function, path } = j;
    let di = tree_of_data(input_data);
    let dout = tree_of_data(output_data);
    let outer: Vec<(String, JsonValue<T>)> = vec![
        (String::from_str("input_data"), di),
        (String::from_str("output_data"), dout),
        (String::from_str("function"), JsonValue::Str(function)),
        (String::from_str("path"), JsonValue::Str(path)),
    ];
    let t = JsonValue::Obj(outer);
    proof {
        lemma_pair_models_index(outer@);
        assert(pair_models(outer@) =~= seq![
            ("input_data"@, encode_data(jm.input_data)),
            ("output_data"@, encode_data(jm.output_data)),
            ("function"@, TreeModel::<T>::Str(jm.function)),
            ("path"@, TreeModel::<T>::Str(jm.path)),
        ]);
    }
    t
}

/// Round trip of a whole fixture record: decoding the encoding yields the
/// record unchanged.
pub proof fn lemma_fixture_round_trip<T>(j: JsonModel<T>)
    ensures
        decode_fixture(encode_fixture(j)) == Some(j),
{
    lemma_keys_distinct();
    lemma_data_round_trip(j.input_data);
    lemma_data_round_trip(j.output_data);
    let fs = seq![
        ("input_data"@, encode_data(j.input_data)),
        ("output_data"@, encode_data(j.output_data)),
        ("function"@, TreeModel::<T>::Str(j.function)),
        ("path"@, TreeModel::<T>::Str(j.path)),
    ];
    lemma_lookup_at(fs, 0);
    lemma_lookup_at(fs, 1);
    lemma_lookup_at(fs, 2);
    lemma_lookup_at(fs, 3);
    assert(decode_fixture(TreeModel::Obj(fs)) == Some(j));
}

} // verus!
