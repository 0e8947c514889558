//! The input dictionary of a job, and how two inputs are made one.
//!
//! A dictionary keeps its keys in the order in which they were first
//! inserted, and holds no key twice.

use crate::assoc::{
    distinct_keys, has_key, keys_of, lemma_position_is, lemma_put_value, put, value_under,
};
use crate::options::InputUnifyMode;
use vstd::prelude::*;

verus! {

#[verifier::external_type_specification]
#[verifier::external_body]
pub struct ExDict(typst::foundations::Dict);

#[verifier::external_type_specification]
#[verifier::external_body]
pub struct ExValue(typst::foundations::Value);

#[verifier::external_type_specification]
#[verifier::external_body]
pub struct ExJsonValue(serde_json::Value);

/// A Typst dictionary.
pub type InputDict = typst::foundations::Dict;

/// A Typst value.
pub type InputValue = typst::foundations::Value;

/// The keys of a dictionary with their values, in the dictionary's order.
pub uninterp spec fn dict_entries(dict: InputDict) -> Seq<(Seq<char>, InputValue)>;

/// The entries of the dictionary that a value is; `None` for a value that is
/// no dictionary.
pub uninterp spec fn nested_entries(value: InputValue) -> Option<Seq<(Seq<char>, InputValue)>>;

/// `base` after each entry of `over` has been inserted, in order.
pub open spec fn overlay(
    base: Seq<(Seq<char>, InputValue)>,
    over: Seq<(Seq<char>, InputValue)>,
) -> Seq<(Seq<char>, InputValue)>
    decreases over.len(),
{
    if over.len() == 0 {
        base
    } else {
        put(overlay(base, over.drop_last()), over.last().0, over.last().1)
    }
}

/// The entries of the dictionary that a JSON value is read as; `None` for a
/// value that cannot be read as a dictionary.
pub uninterp spec fn json_dict(value: serde_json::Value) -> Option<Seq<(Seq<char>, InputValue)>>;

/// The entries that a serialised value brings to a job: those of the
/// dictionary that it is read as; `None` where the value is missing or is no
/// dictionary.
pub open spec fn serde_entries(input: Option<serde_json::Value>) -> Option<
    Seq<(Seq<char>, InputValue)>,
> {
    match input {
        Some(value) => json_dict(value),
        None => None,
    }
}

/// Whether `result` holds for every key what `upper` holds for it, and for a
/// key that `upper` has not what `lower` holds for it.
pub open spec fn layered(
    upper: Seq<(Seq<char>, InputValue)>,
    lower: Seq<(Seq<char>, InputValue)>,
    result: Seq<(Seq<char>, InputValue)>,
) -> bool {
    forall|key: Seq<char>| #[trigger]
        value_under(result, key) == if has_key(upper, key) {
            value_under(upper, key)
        } else {
            value_under(lower, key)
        }
}

/// The views of a list of keys with their values.
pub open spec fn pair_views(pairs: Seq<(String, InputValue)>) -> Seq<(Seq<char>, InputValue)> {
    pairs.map_values(|p: (String, InputValue)| (p.0@, p.1))
}

/// A dictionary without entries.
///
/// Wraps `typst::foundations::Dict::new`.
#[verifier::external_body]
pub(crate) fn empty_dict() -> (dict: InputDict)
    ensures
        dict_entries(dict) == Seq::<(Seq<char>, InputValue)>::empty(),
{
    typst::foundations::Dict::new()
}

/// Puts `value` under `key`.
///
/// Wraps `typst::foundations::Dict::insert`: the value of a key that is there
/// already is replaced in its place, and a new key comes last.
#[verifier::external_body]
pub(crate) fn dict_insert(dict: &mut InputDict, key: String, value: InputValue)
    ensures
        dict_entries(*final(dict)) == put(dict_entries(*old(dict)), key@, value),
{
    dict.insert(key.into(), value)
}

/// Takes a dictionary apart into its keys and values, in its order.
///
/// Wraps `IntoIterator::into_iter` of `typst::foundations::Dict`, with each
/// key as a `String`. The dictionary is an `IndexMap`, so no key comes twice.
#[verifier::external_body]
pub(crate) fn dict_into_pairs(dict: InputDict) -> (pairs: Vec<(String, InputValue)>)
    ensures
        pair_views(pairs@) == dict_entries(dict),
        distinct_keys(pair_views(pairs@)),
{
    dict.into_iter().map(|(key, value)| (key.into(), value)).collect()
}

/// The value that holds a dictionary.
///
/// Wraps `typst::foundations::IntoValue::into_value` of
/// `typst::foundations::Dict`.
#[verifier::external_body]
pub(crate) fn dict_into_value(dict: InputDict) -> (value: InputValue)
    ensures
        nested_entries(value) == Some(dict_entries(dict)),
{
    typst::foundations::IntoValue::into_value(dict)
}

/// Reads a dictionary out of a JSON value; `None` where the value cannot be
/// read as one.
///
/// Wraps `serde_json::from_value` at the type `typst::foundations::Dict`.
/// What comes back depends on the value alone; the dictionary is an
/// `IndexMap`, so it holds no key twice.
#[verifier::external_body]
pub(crate) fn dict_from_json(value: serde_json::Value) -> (read: Option<InputDict>)
    ensures
        match read {
            Some(dict) => json_dict(value) == Some(dict_entries(dict)) && distinct_keys(
                dict_entries(dict),
            ),
            None => json_dict(value) is None,
        },
{
    serde_json::from_value::<typst::foundations::Dict>(value).ok()
}

/// Inserts every entry of `over` into `base`, in order. Afterwards every key
/// of `over` holds the value that `over` has for it.
pub fn overlay_onto(base: InputDict, over: InputDict) -> (merged: InputDict)
    ensures
        dict_entries(merged) == overlay(dict_entries(base), dict_entries(over)),
        layered(dict_entries(over), dict_entries(base), dict_entries(merged)),
{
    let mut merged = base;
    let pairs = dict_into_pairs(over);
    let ghost entries = dict_entries(over);
    for pair in it: pairs.into_iter()
        invariant
            pair_views(it.seq()) == entries,
            dict_entries(merged) == overlay(dict_entries(base), entries.take(it.index() as int)),
    {
        proof {
            let i = it.index() as int;
            assert(entries.take(i + 1).drop_last() == entries.take(i));
            assert(entries.take(i + 1).last() == (pair.0@, pair.1));
        }
        dict_insert(&mut merged, pair.0, pair.1);
    }
    assert(entries.take(entries.len() as int) == entries);
    assert forall|key: Seq<char>| #[trigger]
        value_under(dict_entries(merged), key) == if has_key(entries, key) {
            value_under(entries, key)
        } else {
            value_under(dict_entries(base), key)
        } by {
        lemma_overlay_value(dict_entries(base), entries, key);
    }
    merged
}

/// What the two inputs of a job make together, by the mode. In an
/// overriding mode the overriding input is laid over the other one, so that
/// a key of both holds the overriding input's value. In the separating mode
/// each input is placed whole under its key; where the two keys are the
/// same, only the dictionary input is.
pub open spec fn unified(
    mode: InputUnifyMode,
    serde: Seq<(Seq<char>, InputValue)>,
    dict: Seq<(Seq<char>, InputValue)>,
    result: Seq<(Seq<char>, InputValue)>,
) -> bool {
    match mode {
        InputUnifyMode::SerdeOverridesDict => result == overlay(dict, serde) && layered(
            serde,
            dict,
            result,
        ),
        InputUnifyMode::DictOverridesSerde => result == overlay(serde, dict) && layered(
            dict,
            serde,
            result,
        ),
        InputUnifyMode::SeparateKeys { serde_key, dict_key } => if serde_key@ == dict_key@ {
            result.len() == 1 && result[0].0 == dict_key@ && nested_entries(result[0].1) == Some(
                dict,
            )
        } else {
            result.len() == 2 && result[0].0 == serde_key@ && nested_entries(result[0].1) == Some(
                serde,
            ) && result[1].0 == dict_key@ && nested_entries(result[1].1) == Some(dict)
        },
    }
}

/// Makes one dictionary of a job's two inputs.
pub fn unify_inputs(mode: &InputUnifyMode, serde: InputDict, dict: InputDict) -> (result:
    InputDict)
    ensures
        unified(*mode, dict_entries(serde), dict_entries(dict), dict_entries(result)),
{
    match mode {
        InputUnifyMode::SerdeOverridesDict => overlay_onto(dict, serde),
        InputUnifyMode::DictOverridesSerde => overlay_onto(serde, dict),
        InputUnifyMode::SeparateKeys { serde_key, dict_key } => {
            let mut result = empty_dict();
            let ghost same = serde_key@ == dict_key@;
            let ghost serde_name = serde_key@;
            let ghost dict_name = dict_key@;
            let serde_value = dict_into_value(serde);
            let dict_value = dict_into_value(dict);
            dict_insert(&mut result, serde_key.clone(), serde_value);
            proof {
                let empty = Seq::<(Seq<char>, InputValue)>::empty();
                lemma_position_is(keys_of(empty), serde_name, 0);
                let one = dict_entries(result);
                assert(one == empty.push((serde_name, serde_value)));
                assert(keys_of(one)[0] == serde_name);
                lemma_position_is(keys_of(one), dict_name, if same {
                    0int
                } else {
                    1int
                });
            }
            dict_insert(&mut result, dict_key.clone(), dict_value);
            result
        },
    }
}

/// Where two inputs are laid over each other, a key that the upper one has
/// holds the upper one's value, and any other key holds what the lower one
/// has for it.
pub proof fn lemma_overlay_value(
    base: Seq<(Seq<char>, InputValue)>,
    over: Seq<(Seq<char>, InputValue)>,
    key: Seq<char>,
)
    requires
        distinct_keys(over),
    ensures
        value_under(overlay(base, over), key) == if has_key(over, key) {
            value_under(over, key)
        } else {
            value_under(base, key)
        },
    decreases over.len(),
{
    if over.len() > 0 {
        let init = over.drop_last();
        let last = over.last();
        assert forall|i: int, j: int| 0 <= i < j < init.len() implies (#[trigger] init[i]).0 != (
        #[trigger] init[j]).0 by {
            assert(init[i] == over[i]);
            assert(init[j] == over[j]);
        }
        lemma_overlay_value(base, init, key);
        lemma_put_value(overlay(base, init), last.0, last.1, key);
        crate::assoc::lemma_position(keys_of(init), key);
        let p = crate::assoc::position(keys_of(init), key);
        let keys = keys_of(over);
        if key == last.0 {
            assert forall|i: int| 0 <= i < over.len() - 1 implies keys[i] != key by {
                assert(over[i].0 != over[over.len() - 1].0);
            }
            lemma_position_is(keys, key, over.len() - 1);
        } else if p < init.len() {
            assert forall|i: int| 0 <= i < p implies keys[i] != key by {
                assert(keys[i] == keys_of(init)[i]);
            }
            assert(keys[p] == keys_of(init)[p]);
            assert(over[p] == init[p]);
            lemma_position_is(keys, key, p);
        } else {
            assert forall|i: int| 0 <= i < over.len() implies keys[i] != key by {
                if i < init.len() {
                    assert(keys[i] == keys_of(init)[i]);
                }
            }
            lemma_position_is(keys, key, over.len() as int);
        }
    } else {
        lemma_position_is(keys_of(over), key, 0);
    }
}

/// Entries without a key twice, laid over nothing, are the same entries.
pub proof fn lemma_overlay_of_nothing(over: Seq<(Seq<char>, InputValue)>)
    requires
        distinct_keys(over),
    ensures
        overlay(Seq::empty(), over) == over,
    decreases over.len(),
{
    if over.len() > 0 {
        let init = over.drop_last();
        let last = over.last();
        assert forall|i: int, j: int| 0 <= i < j < init.len() implies (#[trigger] init[i]).0 != (
        #[trigger] init[j]).0 by {
            assert(init[i] == over[i]);
            assert(init[j] == over[j]);
        }
        lemma_overlay_of_nothing(init);
        assert forall|i: int| 0 <= i < init.len() implies keys_of(init)[i] != last.0 by {
            assert(init[i] == over[i]);
            assert(over[i].0 != over[over.len() - 1].0);
        }
        lemma_position_is(keys_of(init), last.0, init.len() as int);
        assert(init.push(last) == over);
    }
}

/// Where the inputs share a key, each overriding mode keeps for that key the
/// value of the input that it puts first.
pub proof fn lemma_override_precedence(
    serde: Seq<(Seq<char>, InputValue)>,
    dict: Seq<(Seq<char>, InputValue)>,
    by_serde: Seq<(Seq<char>, InputValue)>,
    by_dict: Seq<(Seq<char>, InputValue)>,
    key: Seq<char>,
)
    requires
        unified(InputUnifyMode::SerdeOverridesDict, serde, dict, by_serde),
        unified(InputUnifyMode::DictOverridesSerde, serde, dict, by_dict),
        has_key(serde, key),
        has_key(dict, key),
    ensures
        value_under(by_serde, key) == value_under(serde, key),
        value_under(by_dict, key) == value_under(dict, key),
{
    assert(value_under(by_serde, key) == value_under(serde, key));
    assert(value_under(by_dict, key) == value_under(dict, key));
}

/// Where the inputs share a key under which they hold different values, the
/// two overriding modes give different dictionaries.
pub proof fn lemma_overriding_modes_differ(
    serde: Seq<(Seq<char>, InputValue)>,
    dict: Seq<(Seq<char>, InputValue)>,
    by_serde: Seq<(Seq<char>, InputValue)>,
    by_dict: Seq<(Seq<char>, InputValue)>,
    key: Seq<char>,
)
    requires
        unified(InputUnifyMode::SerdeOverridesDict, serde, dict, by_serde),
        unified(InputUnifyMode::DictOverridesSerde, serde, dict, by_dict),
        has_key(serde, key),
        has_key(dict, key),
        value_under(serde, key) != value_under(dict, key),
    ensures
        by_serde != by_dict,
{
    lemma_override_precedence(serde, dict, by_serde, by_dict, key);
}

/// On a key that only one of the inputs has, or none, the two overriding
/// modes agree.
pub proof fn lemma_overriding_modes_agree(
    serde: Seq<(Seq<char>, InputValue)>,
    dict: Seq<(Seq<char>, InputValue)>,
    by_serde: Seq<(Seq<char>, InputValue)>,
    by_dict: Seq<(Seq<char>, InputValue)>,
    key: Seq<char>,
)
    requires
        unified(InputUnifyMode::SerdeOverridesDict, serde, dict, by_serde),
        unified(InputUnifyMode::DictOverridesSerde, serde, dict, by_dict),
        !(has_key(serde, key) && has_key(dict, key)),
    ensures
        value_under(by_serde, key) == value_under(by_dict, key),
{
    assert(value_under(by_serde, key) == if has_key(serde, key) {
        value_under(serde, key)
    } else {
        value_under(dict, key)
    });
    assert(value_under(by_dict, key) == if has_key(dict, key) {
        value_under(dict, key)
    } else {
        value_under(serde, key)
    });
}

/// With two different keys, the separating mode holds exactly the two inputs,
/// each whole under its own key.
pub proof fn lemma_separate_keys(
    mode: InputUnifyMode,
    serde: Seq<(Seq<char>, InputValue)>,
    dict: Seq<(Seq<char>, InputValue)>,
    result: Seq<(Seq<char>, InputValue)>,
)
    requires
        mode is SeparateKeys,
        mode->serde_key@ != mode->dict_key@,
        unified(mode, serde, dict, result),
    ensures
        result.len() == 2,
        distinct_keys(result),
        value_under(result, mode->serde_key@) is Some,
        nested_entries(value_under(result, mode->serde_key@)->Some_0) == Some(serde),
        value_under(result, mode->dict_key@) is Some,
        nested_entries(value_under(result, mode->dict_key@)->Some_0) == Some(dict),
{
    assert(keys_of(result)[0] == mode->serde_key@);
    assert(keys_of(result)[1] == mode->dict_key@);
    lemma_position_is(keys_of(result), mode->serde_key@, 0);
    lemma_position_is(keys_of(result), mode->dict_key@, 1);
}

} // verus!
