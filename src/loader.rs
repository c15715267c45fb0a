use vstd::prelude::*;
use crate::config::{
    default_config, default_shadow_dir, format_key, format_key_string, shadow_key,
    shadow_key_string, toml_tag, Config,
};
use crate::document::{admerge, fields_view, Document, Field, FieldView};
use crate::validate::{config_of, field_errors, has_error, is_valid, validate, ErrorView, ValidationError};

verus! {

/// The fields of the built-in default document.
pub open spec fn default_fields() -> Seq<FieldView> {
    seq![(shadow_key(), Some(default_shadow_dir())), (format_key(), Some(toml_tag()))]
}

/// Admerges each layer in turn, the last one winning.
pub open spec fn merge_layers(
    acc: Map<Seq<char>, Option<Seq<char>>>,
    layers: Seq<Seq<FieldView>>,
) -> Map<Seq<char>, Option<Seq<char>>>
    decreases layers.len(),
{
    if layers.len() == 0 {
        acc
    } else {
        admerge(merge_layers(acc, layers.drop_last()), layers.last())
    }
}

/// The document that the default and the override layers, in ascending precedence, merge into.
pub open spec fn merged(layers: Seq<Seq<FieldView>>) -> Map<Seq<char>, Option<Seq<char>>> {
    merge_layers(admerge(Map::empty(), default_fields()), layers)
}

pub open spec fn layers_view(layers: Seq<Vec<Field>>) -> Seq<Seq<FieldView>> {
    layers.map_values(|l: Vec<Field>| fields_view(l@))
}

proof fn lemma_default_map()
    ensures
        admerge(Map::empty(), default_fields()) == Map::<Seq<char>, Option<Seq<char>>>::empty().insert(
            shadow_key(),
            Some(default_shadow_dir()),
        ).insert(format_key(), Some(toml_tag())),
{
    let d = default_fields();
    assert(d.drop_last().drop_last() =~= Seq::<FieldView>::empty());
    assert(d.drop_last().last() == d[0]);
    assert(admerge(Map::empty(), d.drop_last().drop_last()) == Map::<Seq<char>, Option<Seq<char>>>::empty());
    assert(admerge(Map::empty(), d.drop_last()) == Map::<Seq<char>, Option<Seq<char>>>::empty().insert(d[0].0, d[0].1));
    assert(admerge(Map::empty(), d) == admerge(Map::empty(), d.drop_last()).insert(d[1].0, d[1].1));
}

/// The built-in default document.
pub fn default_document() -> (r: Document)
    ensures
        r.wf(),
        r@ == admerge(Map::empty(), default_fields()),
{
    let defaults = Config::builtin();
    let mut doc = Document::new();
    doc.put(shadow_key_string(), Some(defaults.shadow_dir));
    doc.put(format_key_string(), Some(defaults.preferred_config_type));
    proof {
        lemma_default_map();
    }
    doc
}

/// Merges the override layers, in ascending precedence, over the built-in
/// default, and validates the result.
pub fn load_layers(layers: &Vec<Vec<Field>>) -> (r: Result<Config, Vec<ValidationError>>)
    ensures
        r is Ok <==> is_valid(merged(layers_view(layers@))),
        r matches Ok(c) ==> c@ == config_of(merged(layers_view(layers@))) && c@.wf(),
        r matches Err(es) ==> es.len() > 0 && forall|e: ErrorView|
            has_error(es@, e) <==> #[trigger] field_errors(merged(layers_view(layers@))).contains(e),
{
    let mut doc = default_document();
    let mut i: usize = 0;
    while i < layers.len()
        invariant
            0 <= i <= layers.len(),
            doc.wf(),
            doc@ == merged(layers_view(layers@).subrange(0, i as int)),
        decreases layers.len() - i,
    {
        doc.merge_layer(&layers[i]);
        proof {
            let lv = layers_view(layers@);
            assert(lv.subrange(0, i + 1).drop_last() == lv.subrange(0, i as int));
            assert(lv.subrange(0, i + 1).last() == fields_view(layers@[i as int]@));
        }
        i = i + 1;
    }
    assert(layers_view(layers@).subrange(0, layers@.len() as int) == layers_view(layers@));
    validate(&doc)
}

/// Merging layers that set nothing leaves the default document as it is.
pub proof fn lemma_empty_layers(layers: Seq<Seq<FieldView>>)
    requires
        forall|i: int| 0 <= i < layers.len() ==> (#[trigger] layers[i]).len() == 0,
    ensures
        merged(layers) == merged(Seq::empty()),
    decreases layers.len(),
{
    if layers.len() > 0 {
        lemma_empty_layers(layers.drop_last());
    }
}

/// Loading with no override layers yields the built-in default snapshot.
pub proof fn lemma_load_without_overrides()
    ensures
        is_valid(merged(Seq::empty())),
        config_of(merged(Seq::empty())) == default_config(),
{
    let m = merged(Seq::empty());
    lemma_default_map();
    crate::config::lemma_keys_distinct();
    reveal_strlit("toml");
    assert(m.contains_key(shadow_key()));
    assert(m.contains_key(format_key()));
    assert(m.dom() =~= set![shadow_key(), format_key()]);
}

/// The position of the last field of `layer` with key `k`, or -1.
pub open spec fn last_index(layer: Seq<FieldView>, k: Seq<char>) -> int
    decreases layer.len(),
{
    if layer.len() == 0 {
        -1
    } else if layer.last().0 == k {
        layer.len() - 1
    } else {
        last_index(layer.drop_last(), k)
    }
}

/// The value that the highest-precedence layer setting `k` gives it, if any layer does.
pub open spec fn winning_value(layers: Seq<Seq<FieldView>>, k: Seq<char>) -> Option<
    Option<Seq<char>>,
>
    decreases layers.len(),
{
    if layers.len() == 0 {
        None
    } else if last_index(layers.last(), k) >= 0 {
        Some(layers.last()[last_index(layers.last(), k)].1)
    } else {
        winning_value(layers.drop_last(), k)
    }
}

proof fn lemma_last_index(layer: Seq<FieldView>, k: Seq<char>, j: int)
    requires
        0 <= j < layer.len(),
        layer[j].0 == k,
    ensures
        j <= last_index(layer, k) < layer.len(),
    decreases layer.len(),
{
    if j < layer.len() - 1 && layer.last().0 != k {
        lemma_last_index(layer.drop_last(), k, j);
    }
}

proof fn lemma_admerge_value(acc: Map<Seq<char>, Option<Seq<char>>>, layer: Seq<FieldView>, k: Seq<char>)
    ensures
        last_index(layer, k) < layer.len(),
        last_index(layer, k) >= 0 ==> admerge(acc, layer).contains_key(k)
            && admerge(acc, layer)[k] == layer[last_index(layer, k)].1,
        last_index(layer, k) < 0 ==> admerge(acc, layer).contains_key(k) == acc.contains_key(k)
            && admerge(acc, layer)[k] == acc[k],
    decreases layer.len(),
{
    if layer.len() > 0 {
        lemma_admerge_value(acc, layer.drop_last(), k);
        if layer.last().0 != k {
            let i = last_index(layer, k);
            if i >= 0 {
                assert(layer.drop_last()[i] == layer[i]);
            }
        }
    }
}

proof fn lemma_merge_value(acc: Map<Seq<char>, Option<Seq<char>>>, layers: Seq<Seq<FieldView>>, k: Seq<char>)
    ensures
        winning_value(layers, k) matches Some(v) ==> merge_layers(acc, layers).contains_key(k)
            && merge_layers(acc, layers)[k] == v,
        winning_value(layers, k) is None ==> merge_layers(acc, layers).contains_key(k)
            == acc.contains_key(k) && merge_layers(acc, layers)[k] == acc[k],
    decreases layers.len(),
{
    if layers.len() > 0 {
        lemma_merge_value(acc, layers.drop_last(), k);
        lemma_admerge_value(merge_layers(acc, layers.drop_last()), layers.last(), k);
    }
}

/// Precedence: a key takes the value that the highest-precedence layer setting
/// it gives, and keeps its default value when no override layer sets it.
pub proof fn lemma_precedence(layers: Seq<Seq<FieldView>>, k: Seq<char>)
    ensures
        winning_value(layers, k) matches Some(v) ==> merged(layers).contains_key(k)
            && merged(layers)[k] == v,
        winning_value(layers, k) is None ==> merged(layers).contains_key(k) == admerge(
            Map::empty(),
            default_fields(),
        ).contains_key(k) && merged(layers)[k] == admerge(Map::empty(), default_fields())[k],
{
    lemma_merge_value(admerge(Map::empty(), default_fields()), layers, k);
}

/// Strictness: a key outside the schema in any override layer makes the merged
/// document invalid, and the errors name that key.
pub proof fn lemma_unknown_key_rejected(layers: Seq<Seq<FieldView>>, i: int, j: int)
    requires
        0 <= i < layers.len(),
        0 <= j < layers[i].len(),
        !crate::validate::is_known_key(layers[i][j].0),
    ensures
        !is_valid(merged(layers)),
        field_errors(merged(layers)).contains(ErrorView::UnknownField(layers[i][j].0)),
{
    let k = layers[i][j].0;
    lemma_winning_set(layers, i, j);
    lemma_precedence(layers, k);
}

proof fn lemma_winning_set(layers: Seq<Seq<FieldView>>, i: int, j: int)
    requires
        0 <= i < layers.len(),
        0 <= j < layers[i].len(),
    ensures
        winning_value(layers, layers[i][j].0) is Some,
    decreases layers.len(),
{
    let k = layers[i][j].0;
    if i == layers.len() - 1 {
        lemma_last_index(layers[i], k, j);
    } else if last_index(layers.last(), k) < 0 {
        assert(layers.drop_last()[i] == layers[i]);
        lemma_winning_set(layers.drop_last(), i, j);
    }
}

} // verus!
