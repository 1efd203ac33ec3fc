//! Names of the encoder's per-layer inputs and outputs, and what the names of a
//! model say about its number of layers.

use crate::error::{outcome, Error, ErrorView};
use crate::text::{
    chars_of, contains_name, decimal, has_prefix, lists_name, list_text, parse_usize, parsed_usize,
    reading_a_decimal_gives_the_number_back, show_decimal, show_usizes, starts_with, usize_values,
};
use vstd::prelude::*;

verus! {

/// The name of the input that carries the cached `kind` of `layer`.
pub open spec fn input_name(kind: Seq<char>, layer: nat) -> Seq<char> {
    "cache_"@ + kind + "_layer_"@ + decimal(layer)
}

/// The name of the output that carries the projected `kind` of `layer`.
pub open spec fn output_name(kind: Seq<char>, layer: nat) -> Seq<char> {
    "projected_current_"@ + kind + "_layer_"@ + decimal(layer)
}

/// The name of the input that carries the cached `kind` of `layer`.
pub fn cache_layer_input_name(kind: &str, layer: usize) -> (r: String)
    ensures
        r@ == input_name(kind@, layer as nat),
{
    let mut r = "cache_".to_owned();
    r.append(kind);
    r.append("_layer_");
    r.append(show_decimal(layer as u128).as_str());
    r
}

/// The name of the output that carries the projected `kind` of `layer`.
pub fn projected_current_output_name(kind: &str, layer: usize) -> (r: String)
    ensures
        r@ == output_name(kind@, layer as nat),
{
    let mut r = "projected_current_".to_owned();
    r.append(kind);
    r.append("_layer_");
    r.append(show_decimal(layer as u128).as_str());
    r
}

/// `names` holds the key and the value input of every layer below `num_layers`.
pub open spec fn lists_all_inputs(names: Seq<String>, num_layers: nat) -> bool {
    forall|layer: nat|
        layer < num_layers ==> lists_name(names, #[trigger] input_name("key"@, layer))
            && lists_name(names, input_name("value"@, layer))
}

/// `names` holds the key and the value output of every layer below `num_layers`.
pub open spec fn lists_all_outputs(names: Seq<String>, num_layers: nat) -> bool {
    forall|layer: nat|
        layer < num_layers ==> lists_name(names, #[trigger] output_name("key"@, layer))
            && lists_name(names, output_name("value"@, layer))
}

/// Whether every layer has its key and its value input.
pub fn has_all_layered_projected_cache_inputs(input_names: &[String], num_layers: usize) -> (r:
    bool)
    ensures
        r == lists_all_inputs(input_names@, num_layers as nat),
{
    let mut layer: usize = 0;
    while layer < num_layers
        invariant
            layer <= num_layers,
            lists_all_inputs(input_names@, layer as nat),
        decreases num_layers - layer,
    {
        let key = cache_layer_input_name("key", layer);
        let value = cache_layer_input_name("value", layer);
        if !contains_name(input_names, &key) || !contains_name(input_names, &value) {
            assert(key@ == input_name("key"@, layer as nat));
            return false;
        }
        assert forall|l: nat| l < layer + 1 implies lists_name(
            input_names@,
            #[trigger] input_name("key"@, l),
        ) && lists_name(input_names@, input_name("value"@, l)) by {
            if l < layer {
                assert(lists_all_inputs(input_names@, layer as nat));
            }
        }
        assert(lists_all_inputs(input_names@, (layer + 1) as nat));
        layer += 1;
    }
    true
}

/// Whether every layer has its key and its value output.
pub fn has_all_layered_projected_cache_outputs(output_names: &[String], num_layers: usize) -> (r:
    bool)
    ensures
        r == lists_all_outputs(output_names@, num_layers as nat),
{
    let mut layer: usize = 0;
    while layer < num_layers
        invariant
            layer <= num_layers,
            lists_all_outputs(output_names@, layer as nat),
        decreases num_layers - layer,
    {
        let key = projected_current_output_name("key", layer);
        let value = projected_current_output_name("value", layer);
        if !contains_name(output_names, &key) || !contains_name(output_names, &value) {
            assert(key@ == output_name("key"@, layer as nat));
            return false;
        }
        assert forall|l: nat| l < layer + 1 implies lists_name(
            output_names@,
            #[trigger] output_name("key"@, l),
        ) && lists_name(output_names@, output_name("value"@, l)) by {
            if l < layer {
                assert(lists_all_outputs(output_names@, layer as nat));
            }
        }
        assert(lists_all_outputs(output_names@, (layer + 1) as nat));
        layer += 1;
    }
    true
}

/// The layer that `name` numbers, where it begins with `prefix` and goes on with
/// a number.
pub open spec fn layer_of(name: Seq<char>, prefix: Seq<char>) -> Option<usize> {
    if has_prefix(name, prefix) {
        parsed_usize(name.skip(prefix.len() as int))
    } else {
        None
    }
}

/// Some name numbers `layer` after the key prefix.
pub open spec fn has_key(names: Seq<String>, key_prefix: Seq<char>, layer: usize) -> bool {
    exists|i: int|
        0 <= i < names.len() && layer_of(#[trigger] names[i]@, key_prefix) == Some(layer)
}

/// Some name that does not begin with the key prefix numbers `layer` after the
/// value prefix.
pub open spec fn has_value(
    names: Seq<String>,
    key_prefix: Seq<char>,
    value_prefix: Seq<char>,
    layer: usize,
) -> bool {
    exists|i: int|
        0 <= i < names.len() && !has_prefix(#[trigger] names[i]@, key_prefix) && layer_of(
            names[i]@,
            value_prefix,
        ) == Some(layer)
}

/// Every element is smaller than those behind it.
pub open spec fn ascending(s: Seq<usize>) -> bool {
    forall|i: int, j: int| 0 <= i < j < s.len() ==> s[i] < s[j]
}

/// `s` lists the layers that have a key, each once, in ascending order.
pub open spec fn lists_keys(s: Seq<usize>, names: Seq<String>, key_prefix: Seq<char>) -> bool {
    &&& ascending(s)
    &&& forall|layer: usize| #[trigger] s.contains(layer) <==> has_key(names, key_prefix, layer)
}

/// `s` lists the layers that have a value, each once, in ascending order.
pub open spec fn lists_values(
    s: Seq<usize>,
    names: Seq<String>,
    key_prefix: Seq<char>,
    value_prefix: Seq<char>,
) -> bool {
    &&& ascending(s)
    &&& forall|layer: usize| #[trigger]
        s.contains(layer) <==> has_value(names, key_prefix, value_prefix, layer)
}

/// The layers from zero to below `n`.
pub open spec fn first_layers(n: nat) -> Seq<usize> {
    Seq::new(n, |i: int| i as usize)
}

/// The message about layers that are missing.
pub open spec fn gap_message(keys: Seq<usize>, values: Seq<usize>) -> Seq<char> {
    "Layered projected-cache ABI has non-contiguous layers: keys="@ + list_text(usize_values(keys))
        + " values="@ + list_text(usize_values(values))
}

/// The number of layers that the key layers and the value layers agree on: none
/// where there are no keys or no values, and an error unless both are the layers
/// from zero on without a gap.
pub open spec fn agreed_layers(keys: Seq<usize>, values: Seq<usize>) -> Result<
    Option<usize>,
    ErrorView,
> {
    if keys.len() == 0 || values.len() == 0 {
        Ok(None)
    } else if keys.len() <= usize::MAX && keys == first_layers(keys.len()) && values == keys {
        Ok(Some(keys.len() as usize))
    } else {
        Err(ErrorView::Model(gap_message(keys, values)))
    }
}

/// `r` is what the names say about the number of layers.
pub open spec fn counts_layers(
    names: Seq<String>,
    key_prefix: Seq<char>,
    value_prefix: Seq<char>,
    r: Result<Option<usize>, ErrorView>,
) -> bool {
    exists|keys: Seq<usize>, values: Seq<usize>| #[trigger]
        lists_keys(keys, names, key_prefix) && #[trigger] lists_values(
            values,
            names,
            key_prefix,
            value_prefix,
        ) && r == agreed_layers(keys, values)
}

proof fn lemma_ascending_unique(a: Seq<usize>, b: Seq<usize>)
    requires
        ascending(a),
        ascending(b),
        forall|x: usize| #[trigger] a.contains(x) <==> b.contains(x),
    ensures
        a == b,
    decreases a.len(),
{
    if a.len() == 0 {
        if b.len() > 0 {
            assert(b.contains(b[0]));
            assert(a.contains(b[0]));
        }
        assert(a =~= b);
    } else if b.len() == 0 {
        assert(a.contains(a[0]));
        assert(b.contains(a[0]));
    } else {
        assert(a.contains(a.last()));
        assert(b.contains(a.last()));
        assert(b.contains(b.last()));
        assert(a.contains(b.last()));
        assert(a.last() == b.last());
        let a1 = a.drop_last();
        let b1 = b.drop_last();
        assert forall|x: usize| #[trigger] a1.contains(x) <==> b1.contains(x) by {
            if a1.contains(x) {
                let i = choose|i: int| 0 <= i < a1.len() && a1[i] == x;
                assert(a[i] == x);
                assert(a.contains(x));
                let j = choose|j: int| 0 <= j < b.len() && b[j] == x;
                assert(j < b.len() - 1);
                assert(b1[j] == x);
            }
            if b1.contains(x) {
                let i = choose|i: int| 0 <= i < b1.len() && b1[i] == x;
                assert(b[i] == x);
                assert(a.contains(x));
                let j = choose|j: int| 0 <= j < a.len() && a[j] == x;
                assert(j < a.len() - 1);
                assert(a1[j] == x);
            }
        }
        lemma_ascending_unique(a1, b1);
        assert(a =~= a1.push(a.last()));
        assert(b =~= b1.push(b.last()));
    }
}

/// Names say one thing about the number of layers.
pub proof fn layer_count_is_unique(
    names: Seq<String>,
    key_prefix: Seq<char>,
    value_prefix: Seq<char>,
    r: Result<Option<usize>, ErrorView>,
    s: Result<Option<usize>, ErrorView>,
)
    requires
        counts_layers(names, key_prefix, value_prefix, r),
        counts_layers(names, key_prefix, value_prefix, s),
    ensures
        r == s,
{
    let (k1, v1) = choose|keys: Seq<usize>, values: Seq<usize>| #[trigger]
        lists_keys(keys, names, key_prefix) && #[trigger] lists_values(
            values,
            names,
            key_prefix,
            value_prefix,
        ) && r == agreed_layers(keys, values);
    let (k2, v2) = choose|keys: Seq<usize>, values: Seq<usize>| #[trigger]
        lists_keys(keys, names, key_prefix) && #[trigger] lists_values(
            values,
            names,
            key_prefix,
            value_prefix,
        ) && s == agreed_layers(keys, values);
    lemma_ascending_unique(k1, k2);
    lemma_ascending_unique(v1, v2);
}

/// Where the names agree on `n` layers, exactly the layers below `n` have a key,
/// and exactly those have a value.
pub proof fn counted_layers_are_contiguous(
    names: Seq<String>,
    key_prefix: Seq<char>,
    value_prefix: Seq<char>,
    n: usize,
)
    requires
        counts_layers(names, key_prefix, value_prefix, Ok(Some(n))),
    ensures
        n > 0,
        forall|layer: usize| has_key(names, key_prefix, layer) <==> layer < n,
        forall|layer: usize| has_value(names, key_prefix, value_prefix, layer) <==> layer < n,
{
    let (keys, values) = choose|keys: Seq<usize>, values: Seq<usize>| #[trigger]
        lists_keys(keys, names, key_prefix) && #[trigger] lists_values(
            values,
            names,
            key_prefix,
            value_prefix,
        ) && Ok::<Option<usize>, ErrorView>(Some(n)) == agreed_layers(keys, values);
    assert forall|layer: usize| keys.contains(layer) <==> layer < n by {
        if layer < n {
            assert(keys[layer as int] == layer);
        }
    }
    assert forall|layer: usize| has_key(names, key_prefix, layer) <==> layer < n by {
        assert(keys.contains(layer) <==> has_key(names, key_prefix, layer));
    }
    assert forall|layer: usize| has_value(names, key_prefix, value_prefix, layer) <==> layer < n by {
        assert(values.contains(layer) <==> has_value(names, key_prefix, value_prefix, layer));
    }
}

proof fn lemma_written_layers(name: Seq<char>, prefix: Seq<char>, layer: usize)
    requires
        name == prefix + decimal(layer as nat),
    ensures
        layer_of(name, prefix) == Some(layer),
{
    assert(name.take(prefix.len() as int) =~= prefix);
    assert(name.skip(prefix.len() as int) =~= decimal(layer as nat));
    reading_a_decimal_gives_the_number_back(layer);
}

/// The name of an input is read as the layer that it was written for, and that of a value
/// is not taken for that of a key.
pub proof fn input_names_are_read_back(layer: usize)
    ensures
        layer_of(input_name("key"@, layer as nat), "cache_key_layer_"@) == Some(layer),
        layer_of(input_name("value"@, layer as nat), "cache_value_layer_"@) == Some(layer),
        !has_prefix(input_name("value"@, layer as nat), "cache_key_layer_"@),
{
    reveal_strlit("cache_");
    reveal_strlit("key");
    reveal_strlit("value");
    reveal_strlit("_layer_");
    reveal_strlit("cache_key_layer_");
    reveal_strlit("cache_value_layer_");
    assert("cache_"@ + "key"@ + "_layer_"@ =~= "cache_key_layer_"@);
    assert("cache_"@ + "value"@ + "_layer_"@ =~= "cache_value_layer_"@);
    lemma_written_layers(input_name("key"@, layer as nat), "cache_key_layer_"@, layer);
    lemma_written_layers(input_name("value"@, layer as nat), "cache_value_layer_"@, layer);
    let value = input_name("value"@, layer as nat);
    assert(value[6] == 'v');
    assert(value.take("cache_key_layer_"@.len() as int)[6] != "cache_key_layer_"@[6]);
}

/// The name of an output is read as the layer that it was written for, and that of a value
/// is not taken for that of a key.
pub proof fn output_names_are_read_back(layer: usize)
    ensures
        layer_of(output_name("key"@, layer as nat), "projected_current_key_layer_"@) == Some(layer),
        layer_of(output_name("value"@, layer as nat), "projected_current_value_layer_"@) == Some(
            layer,
        ),
        !has_prefix(output_name("value"@, layer as nat), "projected_current_key_layer_"@),
{
    reveal_strlit("projected_current_");
    reveal_strlit("key");
    reveal_strlit("value");
    reveal_strlit("_layer_");
    reveal_strlit("projected_current_key_layer_");
    reveal_strlit("projected_current_value_layer_");
    assert("projected_current_"@ + "key"@ + "_layer_"@ =~= "projected_current_key_layer_"@);
    assert("projected_current_"@ + "value"@ + "_layer_"@ =~= "projected_current_value_layer_"@);
    lemma_written_layers(
        output_name("key"@, layer as nat),
        "projected_current_key_layer_"@,
        layer,
    );
    lemma_written_layers(
        output_name("value"@, layer as nat),
        "projected_current_value_layer_"@,
        layer,
    );
    let value = output_name("value"@, layer as nat);
    assert(value[18] == 'v');
    assert(value.take("projected_current_key_layer_"@.len() as int)[18]
        != "projected_current_key_layer_"@[18]);
}

/// No name numbers a layer from `n` on.
pub open spec fn numbers_none_from(
    names: Seq<String>,
    key_prefix: Seq<char>,
    value_prefix: Seq<char>,
    n: usize,
) -> bool {
    forall|layer: usize|
        #![trigger has_key(names, key_prefix, layer)]
        #![trigger has_value(names, key_prefix, value_prefix, layer)]
        layer >= n ==> !has_key(names, key_prefix, layer) && !has_value(
            names,
            key_prefix,
            value_prefix,
            layer,
        )
}

proof fn lemma_first_layers_are_counted(
    names: Seq<String>,
    key_prefix: Seq<char>,
    value_prefix: Seq<char>,
    n: usize,
)
    requires
        n > 0,
        numbers_none_from(names, key_prefix, value_prefix, n),
        forall|layer: usize| layer < n ==> #[trigger] has_key(names, key_prefix, layer),
        forall|layer: usize|
            layer < n ==> #[trigger] has_value(names, key_prefix, value_prefix, layer),
    ensures
        counts_layers(names, key_prefix, value_prefix, Ok(Some(n))),
{
    let layers = first_layers(n as nat);
    assert forall|layer: usize| #[trigger] layers.contains(layer) <==> layer < n by {
        if layer < n {
            assert(layers[layer as int] == layer);
        }
    }
    assert(lists_keys(layers, names, key_prefix));
    assert(lists_values(layers, names, key_prefix, value_prefix));
    assert(agreed_layers(layers, layers) == Ok::<Option<usize>, ErrorView>(Some(n)));
}

/// The input names that are written for the layers below `n` are counted as `n` layers,
/// whatever other names there are, unless those number further layers.
pub proof fn written_inputs_are_counted(names: Seq<String>, n: usize)
    requires
        n > 0,
        lists_all_inputs(names, n as nat),
        numbers_none_from(names, "cache_key_layer_"@, "cache_value_layer_"@, n),
    ensures
        counts_layers(names, "cache_key_layer_"@, "cache_value_layer_"@, Ok(Some(n))),
{
    let (kp, vp) = ("cache_key_layer_"@, "cache_value_layer_"@);
    assert forall|layer: usize| layer < n implies #[trigger] has_key(names, kp, layer) by {
        input_names_are_read_back(layer);
        let name = input_name("key"@, layer as nat);
        assert(lists_name(names, name));
        let i = choose|i: int| 0 <= i < names.len() && #[trigger] names[i]@ == name;
        assert(layer_of(names[i]@, kp) == Some(layer));
    }
    assert forall|layer: usize| layer < n implies #[trigger] has_value(names, kp, vp, layer) by {
        input_names_are_read_back(layer);
        assert(lists_name(names, input_name("key"@, layer as nat)));
        let name = input_name("value"@, layer as nat);
        assert(lists_name(names, name));
        let i = choose|i: int| 0 <= i < names.len() && #[trigger] names[i]@ == name;
        assert(layer_of(names[i]@, vp) == Some(layer));
    }
    lemma_first_layers_are_counted(names, kp, vp, n);
}

/// The output names that are written for the layers below `n` are counted as `n` layers,
/// whatever other names there are, unless those number further layers.
pub proof fn written_outputs_are_counted(names: Seq<String>, n: usize)
    requires
        n > 0,
        lists_all_outputs(names, n as nat),
        numbers_none_from(
            names,
            "projected_current_key_layer_"@,
            "projected_current_value_layer_"@,
            n,
        ),
    ensures
        counts_layers(
            names,
            "projected_current_key_layer_"@,
            "projected_current_value_layer_"@,
            Ok(Some(n)),
        ),
{
    let (kp, vp) = ("projected_current_key_layer_"@, "projected_current_value_layer_"@);
    assert forall|layer: usize| layer < n implies #[trigger] has_key(names, kp, layer) by {
        output_names_are_read_back(layer);
        let name = output_name("key"@, layer as nat);
        assert(lists_name(names, name));
        let i = choose|i: int| 0 <= i < names.len() && #[trigger] names[i]@ == name;
        assert(layer_of(names[i]@, kp) == Some(layer));
    }
    assert forall|layer: usize| layer < n implies #[trigger] has_value(names, kp, vp, layer) by {
        output_names_are_read_back(layer);
        assert(lists_name(names, output_name("key"@, layer as nat)));
        let name = output_name("value"@, layer as nat);
        assert(lists_name(names, name));
        let i = choose|i: int| 0 <= i < names.len() && #[trigger] names[i]@ == name;
        assert(layer_of(names[i]@, vp) == Some(layer));
    }
    lemma_first_layers_are_counted(names, kp, vp, n);
}

fn insert_layer(layers: &mut Vec<usize>, layer: usize)
    requires
        ascending(old(layers)@),
    ensures
        ascending(final(layers)@),
        forall|x: usize| #[trigger]
            final(layers)@.contains(x) <==> old(layers)@.contains(x) || x == layer,
{
    let mut i: usize = 0;
    while i < layers.len() && layers[i] < layer
        invariant
            i <= layers@.len(),
            layers@ == old(layers)@,
            forall|j: int| 0 <= j < i ==> layers@[j] < layer,
        decreases layers@.len() - i,
    {
        i += 1;
    }
    let ghost before = layers@;
    if i < layers.len() && layers[i] == layer {
        assert(before.contains(layer));
        return;
    }
    layers.insert(i, layer);
    assert forall|x: usize| #[trigger] layers@.contains(x) <==> before.contains(x) || x == layer by {
        if before.contains(x) {
            let k = choose|k: int| 0 <= k < before.len() && before[k] == x;
            if k < i {
                assert(layers@[k] == x);
            } else {
                assert(layers@[k + 1] == x);
            }
        }
        if x == layer {
            assert(layers@[i as int] == x);
        }
        if layers@.contains(x) && x != layer {
            let k = choose|k: int| 0 <= k < layers@.len() && layers@[k] == x;
            if k < i {
                assert(before[k] == x);
            } else {
                assert(before[k - 1] == x);
            }
        }
    }
}

fn is_first_layers(layers: &[usize]) -> (r: bool)
    ensures
        r == (layers@ == first_layers(layers@.len())),
{
    let mut i: usize = 0;
    while i < layers.len()
        invariant
            i <= layers@.len(),
            forall|j: int| 0 <= j < i ==> layers@[j] == j,
        decreases layers@.len() - i,
    {
        if layers[i] != i {
            assert(layers@[i as int] != first_layers(layers@.len())[i as int]);
            return false;
        }
        i += 1;
    }
    assert(layers@ =~= first_layers(layers@.len()));
    true
}

/// Counts the layers that the names number after the two prefixes.
pub fn contiguous_layer_count(names: &[String], key_prefix: &str, value_prefix: &str) -> (r: Result<
    Option<usize>,
    Error,
>)
    ensures
        counts_layers(names@, key_prefix@, value_prefix@, outcome(r)),
{
    let key_chars = chars_of(key_prefix);
    let value_chars = chars_of(value_prefix);
    let mut keys: Vec<usize> = Vec::new();
    let mut values: Vec<usize> = Vec::new();
    let mut i: usize = 0;
    while i < names.len()
        invariant
            i <= names@.len(),
            key_chars@ == key_prefix@,
            value_chars@ == value_prefix@,
            lists_keys(keys@, names@.take(i as int), key_prefix@),
            lists_values(values@, names@.take(i as int), key_prefix@, value_prefix@),
        decreases names@.len() - i,
    {
        let ghost seen = names@.take(i as int);
        let ghost next = names@.take(i + 1);
        let ghost name = names@[i as int]@;
        let ghost keys_before = keys@;
        let ghost values_before = values@;
        let chars = chars_of(names[i].as_str());
        proof {
            assert(next =~= seen.push(names@[i as int]));
            assert forall|layer: usize| has_key(next, key_prefix@, layer) <==> has_key(
                seen,
                key_prefix@,
                layer,
            ) || layer_of(name, key_prefix@) == Some(layer) by {
                if has_key(seen, key_prefix@, layer) {
                    let k = choose|k: int|
                        0 <= k < seen.len() && layer_of(#[trigger] seen[k]@, key_prefix@) == Some(
                            layer,
                        );
                    assert(next[k] == seen[k]);
                }
                if layer_of(name, key_prefix@) == Some(layer) {
                    assert(next[i as int]@ == name);
                }
                if has_key(next, key_prefix@, layer) {
                    let k = choose|k: int|
                        0 <= k < next.len() && layer_of(#[trigger] next[k]@, key_prefix@) == Some(
                            layer,
                        );
                    if k < i {
                        assert(next[k] == seen[k]);
                    }
                }
            }
            assert forall|layer: usize|
                has_value(next, key_prefix@, value_prefix@, layer) <==> has_value(
                    seen,
                    key_prefix@,
                    value_prefix@,
                    layer,
                ) || (!has_prefix(name, key_prefix@) && layer_of(name, value_prefix@) == Some(
                    layer,
                )) by {
                if has_value(seen, key_prefix@, value_prefix@, layer) {
                    let k = choose|k: int|
                        0 <= k < seen.len() && !has_prefix(#[trigger] seen[k]@, key_prefix@)
                            && layer_of(seen[k]@, value_prefix@) == Some(layer);
                    assert(next[k] == seen[k]);
                }
                if !has_prefix(name, key_prefix@) && layer_of(name, value_prefix@) == Some(layer) {
                    assert(next[i as int]@ == name);
                }
                if has_value(next, key_prefix@, value_prefix@, layer) {
                    let k = choose|k: int|
                        0 <= k < next.len() && !has_prefix(#[trigger] next[k]@, key_prefix@)
                            && layer_of(next[k]@, value_prefix@) == Some(layer);
                    if k < i {
                        assert(next[k] == seen[k]);
                    }
                }
            }
        }
        if starts_with(chars.as_slice(), key_chars.as_slice()) {
            if let Some(layer) = parse_usize(chars.as_slice(), key_chars.len()) {
                insert_layer(&mut keys, layer);
            }
        } else if starts_with(chars.as_slice(), value_chars.as_slice()) {
            if let Some(layer) = parse_usize(chars.as_slice(), value_chars.len()) {
                insert_layer(&mut values, layer);
            }
        }
        proof {
            assert forall|layer: usize| #[trigger] keys@.contains(layer) <==> has_key(
                next,
                key_prefix@,
                layer,
            ) by {
                assert(keys_before.contains(layer) <==> has_key(seen, key_prefix@, layer));
            }
            assert forall|layer: usize| #[trigger] values@.contains(layer) <==> has_value(
                next,
                key_prefix@,
                value_prefix@,
                layer,
            ) by {
                assert(values_before.contains(layer) <==> has_value(
                    seen,
                    key_prefix@,
                    value_prefix@,
                    layer,
                ));
            }
        }
        i += 1;
    }
    assert(names@.take(i as int) =~= names@);
    if keys.len() == 0 || values.len() == 0 {
        return Ok(None);
    }
    let ghost agreed = agreed_layers(keys@, values@);
    if is_first_layers(keys.as_slice()) && values.len() == keys.len() && is_first_layers(
        values.as_slice(),
    ) {
        assert(agreed == Ok::<Option<usize>, ErrorView>(Some(keys@.len() as usize)));
        Ok(Some(keys.len()))
    } else {
        let mut m = "Layered projected-cache ABI has non-contiguous layers: keys=".to_owned();
        m.append(show_usizes(keys.as_slice()).as_str());
        m.append(" values=");
        m.append(show_usizes(values.as_slice()).as_str());
        assert(agreed == Err::<Option<usize>, ErrorView>(ErrorView::Model(m@)));
        Err(Error::Model(m))
    }
}

/// The message about inputs and outputs that disagree on the number of layers.
pub open spec fn layer_mismatch_message(inputs: usize, outputs: usize) -> Seq<char> {
    "Layered projected-cache input/output layer mismatch: inputs="@ + decimal(inputs as nat)
        + " outputs="@ + decimal(outputs as nat)
}

/// The number of layers that the inputs and the outputs agree on. Where only one
/// side numbers its layers, that side decides.
pub open spec fn combined_layers(
    inputs: Result<Option<usize>, ErrorView>,
    outputs: Result<Option<usize>, ErrorView>,
) -> Result<Option<usize>, ErrorView> {
    match (inputs, outputs) {
        (Err(e), _) => Err(e),
        (_, Err(e)) => Err(e),
        (Ok(Some(a)), Ok(Some(b))) => if a == b {
            Ok(Some(a))
        } else {
            Err(ErrorView::Model(layer_mismatch_message(a, b)))
        },
        (Ok(Some(a)), Ok(None)) => Ok(Some(a)),
        (Ok(None), Ok(b)) => Ok(b),
    }
}

/// `r` is what the names of a model say about its number of layers.
pub open spec fn model_counts_layers(
    input_names: Seq<String>,
    output_names: Seq<String>,
    r: Result<Option<usize>, ErrorView>,
) -> bool {
    exists|a: Result<Option<usize>, ErrorView>, b: Result<Option<usize>, ErrorView>| #[trigger]
        counts_layers(input_names, "cache_key_layer_"@, "cache_value_layer_"@, a)
            && #[trigger] counts_layers(
            output_names,
            "projected_current_key_layer_"@,
            "projected_current_value_layer_"@,
            b,
        ) && r == combined_layers(a, b)
}

/// Counts the layers of a model that names its caches layer by layer.
pub fn layered_projected_cache_layer_count(input_names: &[String], output_names: &[String]) -> (r:
    Result<Option<usize>, Error>)
    ensures
        model_counts_layers(input_names@, output_names@, outcome(r)),
{
    let inputs = contiguous_layer_count(input_names, "cache_key_layer_", "cache_value_layer_");
    let outputs = contiguous_layer_count(
        output_names,
        "projected_current_key_layer_",
        "projected_current_value_layer_",
    );
    let ghost a = outcome(inputs);
    let ghost b = outcome(outputs);
    match inputs {
        Err(e) => Err(e),
        Ok(input_count) => match outputs {
            Err(e) => Err(e),
            Ok(output_count) => match (input_count, output_count) {
                (Some(x), Some(y)) => if x != y {
                    let mut m =
                        "Layered projected-cache input/output layer mismatch: inputs=".to_owned();
                    m.append(show_decimal(x as u128).as_str());
                    m.append(" outputs=");
                    m.append(show_decimal(y as u128).as_str());
                    assert(combined_layers(a, b) == Err::<Option<usize>, ErrorView>(
                        ErrorView::Model(m@),
                    ));
                    Err(Error::Model(m))
                } else {
                    Ok(Some(x))
                },
                (Some(x), None) => Ok(Some(x)),
                (None, y) => Ok(y),
            },
        },
    }
}

/// A model whose inputs and outputs are named as the layers below `n` are written is
/// counted as one of `n` layers.
pub proof fn written_models_are_counted(
    input_names: Seq<String>,
    output_names: Seq<String>,
    n: usize,
)
    requires
        n > 0,
        lists_all_inputs(input_names, n as nat),
        numbers_none_from(input_names, "cache_key_layer_"@, "cache_value_layer_"@, n),
        lists_all_outputs(output_names, n as nat),
        numbers_none_from(
            output_names,
            "projected_current_key_layer_"@,
            "projected_current_value_layer_"@,
            n,
        ),
    ensures
        model_counts_layers(input_names, output_names, Ok(Some(n))),
{
    written_inputs_are_counted(input_names, n);
    written_outputs_are_counted(output_names, n);
    let count = Ok::<Option<usize>, ErrorView>(Some(n));
    assert(combined_layers(count, count) == count);
}

/// The names of a model say one thing about its number of layers.
pub proof fn model_layer_count_is_unique(
    input_names: Seq<String>,
    output_names: Seq<String>,
    r: Result<Option<usize>, ErrorView>,
    s: Result<Option<usize>, ErrorView>,
)
    requires
        model_counts_layers(input_names, output_names, r),
        model_counts_layers(input_names, output_names, s),
    ensures
        r == s,
{
    let (ik, iv) = ("cache_key_layer_"@, "cache_value_layer_"@);
    let (ok, ov) = ("projected_current_key_layer_"@, "projected_current_value_layer_"@);
    let (a, b) = choose|
        a: Result<Option<usize>, ErrorView>,
        b: Result<Option<usize>, ErrorView>,
    | #[trigger]
        counts_layers(input_names, ik, iv, a) && #[trigger] counts_layers(output_names, ok, ov, b)
            && r == combined_layers(a, b);
    let (c, d) = choose|
        a: Result<Option<usize>, ErrorView>,
        b: Result<Option<usize>, ErrorView>,
    | #[trigger]
        counts_layers(input_names, ik, iv, a) && #[trigger] counts_layers(output_names, ok, ov, b)
            && s == combined_layers(a, b);
    layer_count_is_unique(input_names, ik, iv, a, c);
    layer_count_is_unique(output_names, ok, ov, b, d);
}

/// The inputs and outputs of a layer are named by its kind and its number.
pub proof fn layer_names_are_written_out(
    kind: &str,
    layer: usize,
    input: String,
    output: String,
)
    requires
        call_ensures(cache_layer_input_name, (kind, layer), input),
        call_ensures(projected_current_output_name, (kind, layer), output),
    ensures
        kind@ == "key"@ ==> {
            &&& input@ == "cache_key_layer_"@ + decimal(layer as nat)
            &&& output@ == "projected_current_key_layer_"@ + decimal(layer as nat)
        },
        kind@ == "value"@ ==> {
            &&& input@ == "cache_value_layer_"@ + decimal(layer as nat)
            &&& output@ == "projected_current_value_layer_"@ + decimal(layer as nat)
        },
{
    names_of_layers(layer as nat);
}

/// How the inputs and outputs of a layer are named.
pub proof fn names_of_layers(layer: nat)
    ensures
        input_name("key"@, layer) == "cache_key_layer_"@ + decimal(layer),
        input_name("value"@, layer) == "cache_value_layer_"@ + decimal(layer),
        output_name("key"@, layer) == "projected_current_key_layer_"@ + decimal(layer),
        output_name("value"@, layer) == "projected_current_value_layer_"@ + decimal(layer),
{
    reveal_strlit("cache_");
    reveal_strlit("projected_current_");
    reveal_strlit("key");
    reveal_strlit("value");
    reveal_strlit("_layer_");
    reveal_strlit("cache_key_layer_");
    reveal_strlit("cache_value_layer_");
    reveal_strlit("projected_current_key_layer_");
    reveal_strlit("projected_current_value_layer_");
    assert("cache_"@ + "key"@ + "_layer_"@ =~= "cache_key_layer_"@);
    assert("cache_"@ + "value"@ + "_layer_"@ =~= "cache_value_layer_"@);
    assert("projected_current_"@ + "key"@ + "_layer_"@ =~= "projected_current_key_layer_"@);
    assert("projected_current_"@ + "value"@ + "_layer_"@ =~= "projected_current_value_layer_"@);
}

/// All layers have their inputs, or their outputs, exactly where the names of the key and
/// of the value of each of them are there.
pub proof fn layered_names_must_all_be_there(
    names: &[String],
    num_layers: usize,
    inputs: bool,
    outputs: bool,
)
    requires
        call_ensures(has_all_layered_projected_cache_inputs, (names, num_layers), inputs),
        call_ensures(has_all_layered_projected_cache_outputs, (names, num_layers), outputs),
    ensures
        inputs <==> forall|l: nat|
            l < num_layers ==> lists_name(names@, "cache_key_layer_"@ + #[trigger] decimal(l))
                && lists_name(names@, "cache_value_layer_"@ + decimal(l)),
        outputs <==> forall|l: nat|
            l < num_layers ==> lists_name(
                names@,
                "projected_current_key_layer_"@ + #[trigger] decimal(l),
            ) && lists_name(names@, "projected_current_value_layer_"@ + decimal(l)),
{
    assert forall|l: nat| #[trigger] input_name("key"@, l) == "cache_key_layer_"@ + decimal(l)
        && input_name("value"@, l) == "cache_value_layer_"@ + decimal(l) by {
        names_of_layers(l);
    }
    assert forall|l: nat|
        #[trigger] output_name("key"@, l) == "projected_current_key_layer_"@ + decimal(l)
        && output_name("value"@, l) == "projected_current_value_layer_"@ + decimal(l) by {
        names_of_layers(l);
    }
    if forall|l: nat|
        l < num_layers ==> lists_name(names@, "cache_key_layer_"@ + #[trigger] decimal(l))
            && lists_name(names@, "cache_value_layer_"@ + decimal(l)) {
        assert forall|l: nat| l < num_layers implies lists_name(
            names@,
            #[trigger] input_name("key"@, l),
        ) && lists_name(names@, input_name("value"@, l)) by {
            assert(lists_name(names@, "cache_key_layer_"@ + decimal(l)));
        }
    } else {
        let l = choose|l: nat|
            l < num_layers && !(lists_name(names@, "cache_key_layer_"@ + #[trigger] decimal(l))
                && lists_name(names@, "cache_value_layer_"@ + decimal(l)));
        assert(input_name("key"@, l) == "cache_key_layer_"@ + decimal(l));
    }
    if forall|l: nat|
        l < num_layers ==> lists_name(
            names@,
            "projected_current_key_layer_"@ + #[trigger] decimal(l),
        ) && lists_name(names@, "projected_current_value_layer_"@ + decimal(l)) {
        assert forall|l: nat| l < num_layers implies lists_name(
            names@,
            #[trigger] output_name("key"@, l),
        ) && lists_name(names@, output_name("value"@, l)) by {
            assert(lists_name(names@, "projected_current_key_layer_"@ + decimal(l)));
        }
    } else {
        let l = choose|l: nat|
            l < num_layers && !(lists_name(
                names@,
                "projected_current_key_layer_"@ + #[trigger] decimal(l),
            ) && lists_name(names@, "projected_current_value_layer_"@ + decimal(l)));
        assert(output_name("key"@, l) == "projected_current_key_layer_"@ + decimal(l));
    }
}

/// A name numbers a layer exactly where it is the prefix and then that number.
pub proof fn names_number_a_layer_behind_the_prefix(
    prefix: Seq<char>,
    rest: Seq<char>,
    name: Seq<char>,
)
    ensures
        layer_of(prefix + rest, prefix) == parsed_usize(rest),
        layer_of(name, prefix) is Some ==> name == prefix + name.skip(prefix.len() as int),
{
    assert((prefix + rest).take(prefix.len() as int) =~= prefix);
    assert((prefix + rest).skip(prefix.len() as int) =~= rest);
    if has_prefix(name, prefix) {
        assert(name =~= prefix + name.skip(prefix.len() as int));
    }
}

/// The count of layers is `n` exactly where the names number the keys and the values of
/// the layers below `n` and of no others; it is open exactly where they number no key or
/// no value.
pub proof fn layers_are_counted_from_zero_on(
    names: &[String],
    key_prefix: &str,
    value_prefix: &str,
    n: usize,
    r: Result<Option<usize>, Error>,
)
    requires
        call_ensures(contiguous_layer_count, (names, key_prefix, value_prefix), r),
        n > 0,
    ensures
        outcome(r) == Ok::<Option<usize>, ErrorView>(Some(n)) <==> {
            &&& forall|l: usize| #[trigger] has_key(names@, key_prefix@, l) <==> l < n
            &&& forall|l: usize| #[trigger]
                has_value(names@, key_prefix@, value_prefix@, l) <==> l < n
        },
        outcome(r) == Ok::<Option<usize>, ErrorView>(None) <==> {
            ||| forall|l: usize| !#[trigger] has_key(names@, key_prefix@, l)
            ||| forall|l: usize| !#[trigger] has_value(names@, key_prefix@, value_prefix@, l)
        },
{
    let (kp, vp) = (key_prefix@, value_prefix@);
    let (keys, values) = choose|keys: Seq<usize>, values: Seq<usize>| #[trigger]
        lists_keys(keys, names@, kp) && #[trigger] lists_values(values, names@, kp, vp)
            && outcome(r) == agreed_layers(keys, values);
    if outcome(r) == Ok::<Option<usize>, ErrorView>(Some(n)) {
        counted_layers_are_contiguous(names@, kp, vp, n);
    }
    if (forall|l: usize| #[trigger] has_key(names@, kp, l) <==> l < n) && (forall|l: usize|
        #[trigger] has_value(names@, kp, vp, l) <==> l < n) {
        lemma_first_layers_are_counted(names@, kp, vp, n);
        layer_count_is_unique(names@, kp, vp, outcome(r), Ok(Some(n)));
    }
    if keys.len() == 0 {
        assert forall|l: usize| !#[trigger] has_key(names@, kp, l) by {
            assert(!keys.contains(l));
        }
    } else {
        assert(keys.contains(keys[0]));
    }
    if values.len() == 0 {
        assert forall|l: usize| !#[trigger] has_value(names@, kp, vp, l) by {
            assert(!values.contains(l));
        }
    } else {
        assert(values.contains(values[0]));
    }
}

/// Inputs and outputs must number the same layers: the count of a model is the one that
/// either gives where the other gives none, and an error where they differ.
pub proof fn inputs_and_outputs_count_together(
    inputs: &[String],
    outputs: &[String],
    a: Result<Option<usize>, Error>,
    b: Result<Option<usize>, Error>,
    r: Result<Option<usize>, Error>,
)
    requires
        call_ensures(
            contiguous_layer_count,
            (inputs, "cache_key_layer_", "cache_value_layer_"),
            a,
        ),
        call_ensures(
            contiguous_layer_count,
            (outputs, "projected_current_key_layer_", "projected_current_value_layer_"),
            b,
        ),
        call_ensures(layered_projected_cache_layer_count, (inputs, outputs), r),
    ensures
        a matches Ok(x) ==> b matches Ok(y) ==> {
            &&& x == y ==> outcome(r) == Ok::<Option<usize>, ErrorView>(x)
            &&& x is None ==> outcome(r) == Ok::<Option<usize>, ErrorView>(y)
            &&& y is None ==> outcome(r) == Ok::<Option<usize>, ErrorView>(x)
            &&& x is Some && y is Some && x != y ==> r is Err
        },
        a is Err ==> outcome(r) == outcome(a),
        a is Ok && b is Err ==> outcome(r) == outcome(b),
{
    let (ik, iv) = ("cache_key_layer_"@, "cache_value_layer_"@);
    let (ok, ov) = ("projected_current_key_layer_"@, "projected_current_value_layer_"@);
    let (c, d) = choose|
        x: Result<Option<usize>, ErrorView>,
        y: Result<Option<usize>, ErrorView>,
    | #[trigger]
        counts_layers(inputs@, ik, iv, x) && #[trigger] counts_layers(outputs@, ok, ov, y)
            && outcome(r) == combined_layers(x, y);
    layer_count_is_unique(inputs@, ik, iv, outcome(a), c);
    layer_count_is_unique(outputs@, ok, ov, outcome(b), d);
}

/// A layer has a key where some name is the key prefix and then the layer's number, and a
/// value where some name is the value prefix and then that number, unless the key prefix
/// begins that name.
pub proof fn layers_have_what_the_names_number(
    names: Seq<String>,
    key_prefix: Seq<char>,
    value_prefix: Seq<char>,
    layer: usize,
)
    ensures
        has_key(names, key_prefix, layer) <==> exists|i: int|
            0 <= i < names.len() && ({
                let name = #[trigger] names[i]@;
                let rest = name.skip(key_prefix.len() as int);
                name == key_prefix + rest && parsed_usize(rest) == Some(layer)
            }),
        has_value(names, key_prefix, value_prefix, layer) <==> exists|i: int|
            0 <= i < names.len() && ({
                let name = #[trigger] names[i]@;
                let rest = name.skip(value_prefix.len() as int);
                &&& name != key_prefix + name.skip(key_prefix.len() as int)
                &&& name == value_prefix + rest
                &&& parsed_usize(rest) == Some(layer)
            }),
{
    assert forall|name: Seq<char>, prefix: Seq<char>| #[trigger]
        has_prefix(name, prefix) <==> name == prefix + name.skip(prefix.len() as int) by {
        if has_prefix(name, prefix) {
            assert(name =~= prefix + name.skip(prefix.len() as int));
        }
        if name == prefix + name.skip(prefix.len() as int) {
            assert(name.take(prefix.len() as int) =~= prefix);
        }
    }
    if has_key(names, key_prefix, layer) {
        let i = choose|i: int|
            0 <= i < names.len() && layer_of(#[trigger] names[i]@, key_prefix) == Some(layer);
        assert(has_prefix(names[i]@, key_prefix));
    }
    if exists|i: int|
        0 <= i < names.len() && ({
            let name = #[trigger] names[i]@;
            let rest = name.skip(key_prefix.len() as int);
            name == key_prefix + rest && parsed_usize(rest) == Some(layer)
        }) {
        let i = choose|i: int|
            0 <= i < names.len() && ({
                let name = #[trigger] names[i]@;
                let rest = name.skip(key_prefix.len() as int);
                name == key_prefix + rest && parsed_usize(rest) == Some(layer)
            });
        assert(has_prefix(names[i]@, key_prefix));
        assert(layer_of(names[i]@, key_prefix) == Some(layer));
    }
    if has_value(names, key_prefix, value_prefix, layer) {
        let i = choose|i: int|
            0 <= i < names.len() && !has_prefix(#[trigger] names[i]@, key_prefix) && layer_of(
                names[i]@,
                value_prefix,
            ) == Some(layer);
        assert(has_prefix(names[i]@, value_prefix));
    }
    if exists|i: int|
        0 <= i < names.len() && ({
            let name = #[trigger] names[i]@;
            let rest = name.skip(value_prefix.len() as int);
            &&& name != key_prefix + name.skip(key_prefix.len() as int)
            &&& name == value_prefix + rest
            &&& parsed_usize(rest) == Some(layer)
        }) {
        let i = choose|i: int|
            0 <= i < names.len() && ({
                let name = #[trigger] names[i]@;
                let rest = name.skip(value_prefix.len() as int);
                &&& name != key_prefix + name.skip(key_prefix.len() as int)
                &&& name == value_prefix + rest
                &&& parsed_usize(rest) == Some(layer)
            });
        assert(has_prefix(names[i]@, value_prefix));
        assert(!has_prefix(names[i]@, key_prefix));
        assert(layer_of(names[i]@, value_prefix) == Some(layer));
    }
}

/// Layers that cannot be counted are listed, those with a key and those with a value, each
/// once and in ascending order.
pub proof fn layers_with_gaps_are_listed(
    names: &[String],
    key_prefix: &str,
    value_prefix: &str,
    keys: Seq<usize>,
    values: Seq<usize>,
    r: Result<Option<usize>, Error>,
)
    requires
        call_ensures(contiguous_layer_count, (names, key_prefix, value_prefix), r),
        forall|i: int, j: int| 0 <= i < j < keys.len() ==> keys[i] < keys[j],
        forall|i: int, j: int| 0 <= i < j < values.len() ==> values[i] < values[j],
        forall|l: usize| #[trigger] keys.contains(l) <==> has_key(names@, key_prefix@, l),
        forall|l: usize| #[trigger]
            values.contains(l) <==> has_value(names@, key_prefix@, value_prefix@, l),
    ensures
        r matches Err(e) ==> e@ == ErrorView::Model(
            "Layered projected-cache ABI has non-contiguous layers: keys="@ + list_text(
                usize_values(keys),
            ) + " values="@ + list_text(usize_values(values)),
        ),
{
    let (kp, vp) = (key_prefix@, value_prefix@);
    let (k, v) = choose|k: Seq<usize>, v: Seq<usize>| #[trigger]
        lists_keys(k, names@, kp) && #[trigger] lists_values(v, names@, kp, vp) && outcome(r)
            == agreed_layers(k, v);
    assert forall|l: usize| #[trigger] k.contains(l) <==> keys.contains(l) by {}
    assert forall|l: usize| #[trigger] v.contains(l) <==> values.contains(l) by {}
    lemma_ascending_unique(k, keys);
    lemma_ascending_unique(v, values);
}

/// Inputs and outputs that count different layers are shown with both counts.
pub proof fn different_counts_are_shown(
    inputs: &[String],
    outputs: &[String],
    a: Result<Option<usize>, Error>,
    b: Result<Option<usize>, Error>,
    x: usize,
    y: usize,
    r: Result<Option<usize>, Error>,
)
    requires
        call_ensures(
            contiguous_layer_count,
            (inputs, "cache_key_layer_", "cache_value_layer_"),
            a,
        ),
        call_ensures(
            contiguous_layer_count,
            (outputs, "projected_current_key_layer_", "projected_current_value_layer_"),
            b,
        ),
        call_ensures(layered_projected_cache_layer_count, (inputs, outputs), r),
        a == Ok::<Option<usize>, Error>(Some(x)),
        b == Ok::<Option<usize>, Error>(Some(y)),
        x != y,
    ensures
        r matches Err(e) && e@ == ErrorView::Model(
            "Layered projected-cache input/output layer mismatch: inputs="@ + decimal(x as nat)
                + " outputs="@ + decimal(y as nat),
        ),
{
    let (ik, iv) = ("cache_key_layer_"@, "cache_value_layer_"@);
    let (ok, ov) = ("projected_current_key_layer_"@, "projected_current_value_layer_"@);
    let (c, d) = choose|
        x: Result<Option<usize>, ErrorView>,
        y: Result<Option<usize>, ErrorView>,
    | #[trigger]
        counts_layers(inputs@, ik, iv, x) && #[trigger] counts_layers(outputs@, ok, ov, y)
            && outcome(r) == combined_layers(x, y);
    layer_count_is_unique(inputs@, ik, iv, outcome(a), c);
    layer_count_is_unique(outputs@, ok, ov, outcome(b), d);
}

} // verus!
