use vstd::prelude::*;
use crate::text::{to_chars, from_chars, str_eq, chars_eq, extend_str};
use crate::summary::{ModelArchitecture, ModelSpec, SummaryError};

verus! {

/// A model as the pipeline sees it: name, context window, per-minute and
/// per-day request limits, and API family.
pub open spec fn spec_row(m: ModelSpec) -> (Seq<char>, u64, u32, u32, ModelArchitecture) {
    (m.name@, m.context_window, m.rpm_limit, m.rpd_limit, m.architecture)
}

/// The models offered when no configuration file is read, in menu order
/// (prices are kept with the web front end).
pub open spec fn default_model_table() -> Seq<(Seq<char>, u64, u32, u32, ModelArchitecture)> {
    seq![
        ("auto"@, 1048576u64, 15u32, 1000u32, ModelArchitecture::Gemini),
        ("gemini-3.6-flash"@, 1000000u64, 5u32, 20u32, ModelArchitecture::Gemini),
        ("gemini-3.8-flash"@, 1000000u64, 5u32, 20u32, ModelArchitecture::Gemini),
        ("gemini-3.7-flash"@, 1000000u64, 5u32, 20u32, ModelArchitecture::Gemini),
        ("gemini-3.5-flash-lite"@, 1000000u64, 15u32, 500u32, ModelArchitecture::Gemini),
        ("gemini-3.5-flash"@, 1000000u64, 5u32, 20u32, ModelArchitecture::Gemini),
        ("gemma-4-31b-it"@, 262144u64, 30u32, 14400u32, ModelArchitecture::Gemma),
        ("gemma-4-26b-a4b-it"@, 256000u64, 30u32, 14400u32, ModelArchitecture::Gemma),
        ("gemini-3.1-flash-lite"@, 1048576u64, 15u32, 500u32, ModelArchitecture::Gemini),
        ("gemini-2.5-flash"@, 1048576u64, 5u32, 20u32, ModelArchitecture::Gemini),
        ("gemini-2.5-flash-lite"@, 1048576u64, 10u32, 20u32, ModelArchitecture::Gemini),
        ("gemini-3-flash-preview"@, 1048576u64, 5u32, 20u32, ModelArchitecture::Gemini),
        ("hetzner-qwen-3.6-35b"@, 262144u64, 60u32, 14400u32, ModelArchitecture::Hetzner),
        ("hetzner-qwen-3.8-27b"@, 262144u64, 60u32, 14400u32, ModelArchitecture::Hetzner),
    ]
}

fn model_spec(name: &str, context_window: u64, rpm_limit: u32, rpd_limit: u32, architecture: ModelArchitecture) -> (r: ModelSpec)
    ensures
        spec_row(r) == (name@, context_window, rpm_limit, rpd_limit, architecture),
{
    let v = to_chars(name);
    ModelSpec { name: from_chars(v.as_slice()), context_window, rpm_limit, rpd_limit, architecture }
}

/// The default models (without their prices).
pub fn default_model_specs() -> (r: Vec<ModelSpec>)
    ensures
        r@.map_values(|m: ModelSpec| spec_row(m)) == default_model_table(),
{
    let mut r: Vec<ModelSpec> = Vec::new();
    r.push(model_spec("auto", 1048576, 15, 1000, ModelArchitecture::Gemini));
    r.push(model_spec("gemini-3.6-flash", 1000000, 5, 20, ModelArchitecture::Gemini));
    r.push(model_spec("gemini-3.8-flash", 1000000, 5, 20, ModelArchitecture::Gemini));
    r.push(model_spec("gemini-3.7-flash", 1000000, 5, 20, ModelArchitecture::Gemini));
    r.push(model_spec("gemini-3.5-flash-lite", 1000000, 15, 500, ModelArchitecture::Gemini));
    r.push(model_spec("gemini-3.5-flash", 1000000, 5, 20, ModelArchitecture::Gemini));
    r.push(model_spec("gemma-4-31b-it", 262144, 30, 14400, ModelArchitecture::Gemma));
    r.push(model_spec("gemma-4-26b-a4b-it", 256000, 30, 14400, ModelArchitecture::Gemma));
    r.push(model_spec("gemini-3.1-flash-lite", 1048576, 15, 500, ModelArchitecture::Gemini));
    r.push(model_spec("gemini-2.5-flash", 1048576, 5, 20, ModelArchitecture::Gemini));
    r.push(model_spec("gemini-2.5-flash-lite", 1048576, 10, 20, ModelArchitecture::Gemini));
    r.push(model_spec("gemini-3-flash-preview", 1048576, 5, 20, ModelArchitecture::Gemini));
    r.push(model_spec("hetzner-qwen-3.6-35b", 262144, 60, 14400, ModelArchitecture::Hetzner));
    r.push(model_spec("hetzner-qwen-3.8-27b", 262144, 60, 14400, ModelArchitecture::Hetzner));
    assert(r@.map_values(|m: ModelSpec| spec_row(m)) =~= default_model_table());
    r
}

/// No two default models share a name.
pub proof fn lemma_default_names_distinct()
    ensures
        forall|i: int, j: int|
            0 <= i < j < default_model_table().len() ==> (#[trigger] default_model_table()[i]).0
                != (#[trigger] default_model_table()[j]).0,
{
    reveal_strlit("auto");
    reveal_strlit("gemini-3.6-flash");
    reveal_strlit("gemini-3.8-flash");
    reveal_strlit("gemini-3.7-flash");
    reveal_strlit("gemini-3.5-flash-lite");
    reveal_strlit("gemini-3.5-flash");
    reveal_strlit("gemma-4-31b-it");
    reveal_strlit("gemma-4-26b-a4b-it");
    reveal_strlit("gemini-3.1-flash-lite");
    reveal_strlit("gemini-2.5-flash");
    reveal_strlit("gemini-2.5-flash-lite");
    reveal_strlit("gemini-3-flash-preview");
    reveal_strlit("hetzner-qwen-3.6-35b");
    reveal_strlit("hetzner-qwen-3.8-27b");
    let t = default_model_table();
    assert(t[1].0[9] != t[2].0[9]);
    assert(t[1].0[9] != t[3].0[9]);
    assert(t[1].0[9] != t[5].0[9]);
    assert(t[1].0[7] != t[9].0[7]);
    assert(t[2].0[9] != t[3].0[9]);
    assert(t[2].0[9] != t[5].0[9]);
    assert(t[2].0[7] != t[9].0[7]);
    assert(t[3].0[9] != t[5].0[9]);
    assert(t[3].0[7] != t[9].0[7]);
    assert(t[4].0[9] != t[8].0[9]);
    assert(t[4].0[7] != t[10].0[7]);
    assert(t[5].0[7] != t[9].0[7]);
    assert(t[8].0[7] != t[10].0[7]);
    assert(t[12].0[15] != t[13].0[15]);
    assert forall|i: int, j: int| 0 <= i < j < t.len() implies (#[trigger] t[i]).0 != (#[trigger] t[j]).0 by {
        if t[i].0 == t[j].0 {
            assert(t[i].0.len() == t[j].0.len());
        }
    }
}

/// Both Hetzner models are among the defaults, served by the Hetzner API,
/// with a 262,144-token window.
pub proof fn lemma_hetzner_models_registered()
    ensures
        exists|i: int|
            0 <= i < default_model_table().len() && #[trigger] default_model_table()[i]
                == ("hetzner-qwen-3.6-35b"@, 262144u64, 60u32, 14400u32, ModelArchitecture::Hetzner),
        exists|i: int|
            0 <= i < default_model_table().len() && #[trigger] default_model_table()[i]
                == ("hetzner-qwen-3.8-27b"@, 262144u64, 60u32, 14400u32, ModelArchitecture::Hetzner),
{
    assert(default_model_table()[12] == ("hetzner-qwen-3.6-35b"@, 262144u64, 60u32, 14400u32, ModelArchitecture::Hetzner));
    assert(default_model_table()[13] == ("hetzner-qwen-3.8-27b"@, 262144u64, 60u32, 14400u32, ModelArchitecture::Hetzner));
}

/// The position of the first configured model with a name.
pub open spec fn model_position(names: Seq<Seq<char>>, name: Seq<char>) -> Option<int>
    decreases names.len(),
{
    if names.len() == 0 {
        None
    } else {
        match model_position(names.drop_last(), name) {
            Some(i) => Some(i),
            None => if names.last() == name {
                Some(names.len() - 1)
            } else {
                None
            },
        }
    }
}

pub open spec fn spec_names(models: Seq<ModelSpec>) -> Seq<Seq<char>> {
    models.map_values(|m: ModelSpec| m.name@)
}

/// Finds the configured model with a name.
pub fn find_model(models: &Vec<ModelSpec>, name: &str) -> (r: Option<usize>)
    ensures
        match r {
            Some(i) => model_position(spec_names(models@), name@) == Some(i as int),
            None => model_position(spec_names(models@), name@) is None,
        },
{
    let ghost ns = spec_names(models@);
    let n = to_chars(name);
    let mut i: usize = 0;
    assert(ns.take(0) =~= Seq::<Seq<char>>::empty());
    while i < models.len()
        invariant
            i <= models@.len(),
            ns == spec_names(models@),
            n@ == name@,
            model_position(ns.take(i as int), name@) is None,
        decreases models@.len() - i,
    {
        let ghost t = ns.take(i + 1);
        assert(t.drop_last() == ns.take(i as int));
        assert(t.last() == models@[i as int].name@);
        let m = to_chars(models[i].name.as_str());
        if chars_eq(m.as_slice(), n.as_slice()) {
            proof {
                lemma_position_prefix(ns, name@, i + 1);
            }
            return Some(i);
        }
        i = i + 1;
    }
    assert(ns.take(models@.len() as int) == ns);
    None
}

proof fn lemma_position_prefix(names: Seq<Seq<char>>, name: Seq<char>, n: int)
    requires
        0 <= n <= names.len(),
        model_position(names.take(n), name) is Some,
    ensures
        model_position(names, name) == model_position(names.take(n), name),
    decreases names.len() - n,
{
    if n < names.len() {
        assert(names.take(n + 1).drop_last() == names.take(n));
        lemma_position_prefix(names, name, n + 1);
    } else {
        assert(names.take(n) == names);
    }
}

/// The error for a model name that is not configured.
pub fn unknown_model_error(model_name: &str) -> (r: SummaryError)
    ensures
        r matches SummaryError::ApiError(m) && m@ == "Unknown model: "@ + model_name@,
{
    let mut v = to_chars("Unknown model: ");
    extend_str(&mut v, model_name);
    SummaryError::ApiError(from_chars(v.as_slice()))
}

} // verus!
