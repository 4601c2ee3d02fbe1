//! Choosing the best chat model among those a provider's API lists.

use crate::git::string_views;
use crate::json::{item_pointer, item_pointer_of, json_node, json_node_at, text_of, text_spec, JsonNode, JsonNodeView};
use crate::provider::Provider;
use crate::text::{ascii_lower, chars_of, contains_exec, contains_seq, to_ascii_lower};
use vstd::prelude::*;
use vstd::string::StringExecFns;

verus! {

/// `s` with ASCII upper-case letters in lower case.
pub open spec fn lower(s: Seq<char>) -> Seq<char> {
    s.map_values(|c: char| ascii_lower(c))
}

/// Words that mark a model as not meant for chat (embeddings, speech,
/// images, moderation).
pub open spec fn utility_words() -> Seq<Seq<char>> {
    seq![
        "embedding"@,
        "whisper"@,
        "dall-e"@,
        "vision"@,
        "tts"@,
        "audio"@,
        "moderation"@,
    ]
}

/// A model whose lower-cased id contains one of the [`utility_words`].
pub open spec fn is_utility_model(id: Seq<char>) -> bool {
    exists|i: int| 0 <= i < utility_words().len() && contains_seq(lower(id), #[trigger] utility_words()[i])
}

/// The ids that are chat models, in their order.
pub open spec fn chat_models(ids: Seq<Seq<char>>) -> Seq<Seq<char>>
    decreases ids.len(),
{
    if ids.len() == 0 {
        Seq::empty()
    } else if is_utility_model(ids.last()) {
        chat_models(ids.drop_last())
    } else {
        chat_models(ids.drop_last()).push(ids.last())
    }
}

/// The first of `ms` that satisfies `pred`.
pub open spec fn first_match(ms: Seq<Seq<char>>, pred: spec_fn(Seq<char>) -> bool) -> Option<
    Seq<char>,
>
    decreases ms.len(),
{
    if ms.len() == 0 {
        None
    } else if pred(ms[0]) {
        Some(ms[0])
    } else {
        first_match(ms.drop_first(), pred)
    }
}

/// The first model satisfying the first preference that any model meets,
/// else the first model.
pub open spec fn by_preference(ms: Seq<Seq<char>>, prefs: Seq<spec_fn(Seq<char>) -> bool>) -> Seq<
    char,
>
    decreases prefs.len(),
{
    if prefs.len() == 0 {
        ms[0]
    } else {
        match first_match(ms, prefs[0]) {
            Some(m) => m,
            None => by_preference(ms, prefs.drop_first()),
        }
    }
}

/// The preferences of a provider, best first.
pub open spec fn preferences(p: Provider) -> Seq<spec_fn(Seq<char>) -> bool> {
    match p {
        Provider::Groq => seq![
            |m: Seq<char>| contains_seq(m, "versatile"@) || (contains_seq(m, "llama"@) && contains_seq(
                m,
                "70b"@,
            )),
            |m: Seq<char>| (contains_seq(m, "llama"@) && contains_seq(m, "8b"@)) || contains_seq(
                m,
                "mixtral"@,
            ),
            |m: Seq<char>| contains_seq(m, "llama"@),
        ],
        Provider::Gemini => seq![
            |m: Seq<char>| contains_seq(m, "flash"@),
            |m: Seq<char>| contains_seq(m, "gemini"@),
        ],
        Provider::OpenAi => seq![
            |m: Seq<char>| contains_seq(m, "mini"@),
            |m: Seq<char>| contains_seq(m, "turbo"@),
            |m: Seq<char>| contains_seq(m, "gpt-4"@),
        ],
    }
}

/// The model to use among the ids an API lists: the provider's default
/// when no chat model is listed, else the chat model of the best
/// preference.
pub open spec fn best_model(ids: Seq<Seq<char>>, p: Provider) -> Seq<char> {
    let ms = chat_models(ids);
    if ms.len() == 0 {
        p.default_model_spec()
    } else {
        by_preference(ms, preferences(p))
    }
}

/// `v` with ASCII upper-case letters in lower case.
fn lower_chars(v: &Vec<char>) -> (r: Vec<char>)
    ensures
        r@ == lower(v@),
{
    let mut r: Vec<char> = Vec::new();
    let mut i: usize = 0;
    while i < v.len()
        invariant
            i <= v@.len(),
            r@ == lower(v@.take(i as int)),
        decreases v@.len() - i,
    {
        r.push(to_ascii_lower(v[i]));
        assert(lower(v@.take(i + 1)) =~= lower(v@.take(i as int)).push(ascii_lower(v@[i as int])));
        i += 1;
    }
    assert(v@.take(v@.len() as int) =~= v@);
    r
}

/// Whether a model id marks a utility model.
fn utility_model(id: &str) -> (r: bool)
    ensures
        r == is_utility_model(id@),
{
    let low = lower_chars(&chars_of(id));
    let words: [&str; 7] = ["embedding", "whisper", "dall-e", "vision", "tts", "audio", "moderation"];
    let mut i: usize = 0;
    while i < 7
        invariant
            i <= 7,
            low@ == lower(id@),
            forall|k: int| 0 <= k < 7 ==> (#[trigger] words@[k])@ == utility_words()[k],
            forall|k: int| 0 <= k < i ==> !contains_seq(lower(id@), #[trigger] utility_words()[k]),
        decreases 7 - i,
    {
        if contains_exec(&low, &chars_of(words[i])) {
            return true;
        }
        i += 1;
    }
    false
}

/// Whether `m` contains `w`.
fn has(m: &Vec<char>, w: &str) -> (r: bool)
    ensures
        r == contains_seq(m@, w@),
{
    contains_exec(m, &chars_of(w))
}

/// Whether `m` satisfies preference number `k` of `p`.
fn meets_preference(m: &str, p: Provider, k: usize) -> (r: bool)
    requires
        k < preferences(p).len(),
    ensures
        r == (preferences(p)[k as int])(m@),
{
    let v = chars_of(m);
    match p {
        Provider::Groq => if k == 0 {
            has(&v, "versatile") || (has(&v, "llama") && has(&v, "70b"))
        } else if k == 1 {
            (has(&v, "llama") && has(&v, "8b")) || has(&v, "mixtral")
        } else {
            has(&v, "llama")
        },
        Provider::Gemini => if k == 0 {
            has(&v, "flash")
        } else {
            has(&v, "gemini")
        },
        Provider::OpenAi => if k == 0 {
            has(&v, "mini")
        } else if k == 1 {
            has(&v, "turbo")
        } else {
            has(&v, "gpt-4")
        },
    }
}

/// Number of preferences of a provider.
fn preference_count(p: Provider) -> (n: usize)
    ensures
        n == preferences(p).len(),
{
    match p {
        Provider::Groq => 3,
        Provider::Gemini => 2,
        Provider::OpenAi => 3,
    }
}

/// Picks the best chat model among the model ids an API listed.
pub fn choose_best_model(ids: &Vec<String>, provider: Provider) -> (r: String)
    ensures
        r@ == best_model(string_views(ids@), provider),
{
    let ghost all = string_views(ids@);
    let mut available: Vec<String> = Vec::new();
    let mut i: usize = 0;
    while i < ids.len()
        invariant
            i <= ids@.len(),
            all == string_views(ids@),
            string_views(available@) == chat_models(all.take(i as int)),
        decreases ids@.len() - i,
    {
        let ghost t = all.take(i + 1);
        assert(t.drop_last() =~= all.take(i as int));
        assert(t.last() == ids@[i as int]@);
        if !utility_model(ids[i].as_str()) {
            available.push(ids[i].clone());
            assert(string_views(available@) =~= chat_models(all.take(i as int)).push(ids@[i as int]@));
        }
        i += 1;
    }
    assert(all.take(ids@.len() as int) =~= all);
    let ghost ms = string_views(available@);
    if available.len() == 0 {
        return String::from_str(provider.default_model());
    }
    let n = preference_count(provider);
    let mut k: usize = 0;
    assert(preferences(provider).skip(0) =~= preferences(provider));
    while k < n
        invariant
            k <= n,
            n == preferences(provider).len(),
            ms == string_views(available@),
            ms == chat_models(all),
            all == string_views(ids@),
            ms.len() > 0,
            by_preference(ms, preferences(provider)) == by_preference(
                ms,
                preferences(provider).skip(k as int),
            ),
        decreases n - k,
    {
        let ghost prefs = preferences(provider).skip(k as int);
        assert(prefs[0] == preferences(provider)[k as int]);
        assert(prefs.drop_first() =~= preferences(provider).skip(k + 1));
        let mut j: usize = 0;
        assert(ms.skip(0) =~= ms);
        while j < available.len()
            invariant
                j <= available@.len(),
                k < n,
                n == preferences(provider).len(),
                ms == string_views(available@),
                prefs == preferences(provider).skip(k as int),
                ms == chat_models(all),
                all == string_views(ids@),
                ms.len() > 0,
                by_preference(ms, preferences(provider)) == by_preference(ms, prefs),
                first_match(ms, prefs[0]) == first_match(ms.skip(j as int), prefs[0]),
            decreases available@.len() - j,
        {
            assert(ms.skip(j as int)[0] == available@[j as int]@);
            if meets_preference(available[j].as_str(), provider, k) {
                assert(first_match(ms.skip(j as int), prefs[0]) == Some(ms[j as int]));
                assert(by_preference(ms, prefs) == ms[j as int]);
                let r = available[j].clone();
                return r;
            }
            assert(ms.skip(j as int).drop_first() =~= ms.skip(j + 1));
            j += 1;
        }
        assert(ms.skip(j as int).len() == 0);
        k += 1;
    }
    assert(preferences(provider).skip(k as int).len() == 0);
    available[0].clone()
}


/// The string `id`s of the first `n` items of the `data` array of a model
/// list, in order.
pub open spec fn ids_upto(body: Seq<char>, n: nat) -> Seq<Seq<char>>
    decreases n,
{
    if n == 0 {
        Seq::empty()
    } else {
        let prev = ids_upto(body, (n - 1) as nat);
        match text_spec(json_node(body, item_pointer("/data"@, (n - 1) as nat, "id"@))) {
            Some(id) => prev.push(id),
            None => prev,
        }
    }
}

/// The model ids a model list reports: the `id` of each item of its
/// `data` array that has a string `id`, in order; none when the body is
/// not JSON or has no `data` array.
pub open spec fn listed_ids(body: Seq<char>) -> Seq<Seq<char>> {
    match json_node(body, "/data"@) {
        Some(JsonNodeView::Array(n)) => ids_upto(body, n),
        _ => Seq::empty(),
    }
}

/// The model ids of a model list body.
pub fn model_ids(body: &str) -> (r: Vec<String>)
    ensures
        string_views(r@) == listed_ids(body@),
{
    let mut ids: Vec<String> = Vec::new();
    if let Some(JsonNode::Array(n)) = json_node_at(body, "/data") {
        let mut i: usize = 0;
        while i < n
            invariant
                i <= n,
                string_views(ids@) == ids_upto(body@, i as nat),
            decreases n - i,
        {
            let ptr = item_pointer_of("/data", i, "id");
            if let Some(id) = text_of(json_node_at(body, ptr.as_str())) {
                ids.push(id);
                assert(string_views(ids@) =~= ids_upto(body@, i as nat).push(
                    text_spec(json_node(body@, ptr@)).unwrap(),
                ));
            }
            i += 1;
        }
    }
    ids
}

/// The first match of a predicate is one of the sequence's elements.
proof fn lemma_first_match_member(ms: Seq<Seq<char>>, pred: spec_fn(Seq<char>) -> bool)
    ensures
        first_match(ms, pred) matches Some(m) ==> ms.contains(m),
    decreases ms.len(),
{
    if ms.len() > 0 && !pred(ms[0]) {
        lemma_first_match_member(ms.drop_first(), pred);
        if let Some(m) = first_match(ms, pred) {
            let i = choose|i: int| 0 <= i < ms.drop_first().len() && ms.drop_first()[i] == m;
            assert(ms[i + 1] == m);
        }
    }
    if ms.len() > 0 && pred(ms[0]) {
        assert(ms[0] == ms[0]);
    }
}

/// The preferred model is one of the models.
proof fn lemma_by_preference_member(ms: Seq<Seq<char>>, prefs: Seq<spec_fn(Seq<char>) -> bool>)
    requires
        ms.len() > 0,
    ensures
        ms.contains(by_preference(ms, prefs)),
    decreases prefs.len(),
{
    if prefs.len() == 0 {
        assert(ms[0] == ms[0]);
    } else {
        lemma_first_match_member(ms, prefs[0]);
        lemma_by_preference_member(ms, prefs.drop_first());
    }
}

/// Every chat model is listed and is not a utility model.
proof fn lemma_chat_models_sound(ids: Seq<Seq<char>>, m: Seq<char>)
    ensures
        chat_models(ids).contains(m) ==> ids.contains(m) && !is_utility_model(m),
    decreases ids.len(),
{
    if ids.len() > 0 {
        lemma_chat_models_sound(ids.drop_last(), m);
        if chat_models(ids).contains(m) {
            if chat_models(ids.drop_last()).contains(m) {
                let i = choose|i: int| 0 <= i < ids.drop_last().len() && ids.drop_last()[i] == m;
                assert(ids[i] == m);
            } else {
                assert(ids[ids.len() - 1] == m);
            }
        }
    }
}

/// The chosen model is a listed model that is not a utility model, or the
/// provider's default when the API lists no chat model.
pub proof fn lemma_best_model_is_listed_chat_model(ids: Seq<Seq<char>>, p: Provider)
    ensures
        chat_models(ids).len() == 0 ==> best_model(ids, p) == p.default_model_spec(),
        chat_models(ids).len() > 0 ==> ids.contains(best_model(ids, p)) && !is_utility_model(
            best_model(ids, p),
        ),
{
    if chat_models(ids).len() > 0 {
        lemma_by_preference_member(chat_models(ids), preferences(p));
        lemma_chat_models_sound(ids, best_model(ids, p));
    }
}


/// When the API lists any chat model, the chosen one is listed and its
/// lower-cased id contains none of "embedding", "whisper", "dall-e",
/// "vision", "tts", "audio" and "moderation": no such model is chosen
/// while another listed id qualifies.
pub proof fn lemma_chosen_model_is_not_utility(ids: Seq<Seq<char>>, p: Provider)
    ensures
        chat_models(ids).len() > 0 ==> {
            let m = best_model(ids, p);
            &&& ids.contains(m)
            &&& !contains_seq(lower(m), "embedding"@)
            &&& !contains_seq(lower(m), "whisper"@)
            &&& !contains_seq(lower(m), "dall-e"@)
            &&& !contains_seq(lower(m), "vision"@)
            &&& !contains_seq(lower(m), "tts"@)
            &&& !contains_seq(lower(m), "audio"@)
            &&& !contains_seq(lower(m), "moderation"@)
        },
{
    lemma_best_model_is_listed_chat_model(ids, p);
    if chat_models(ids).len() > 0 {
        let m = best_model(ids, p);
        let w = utility_words();
        assert(w[0] == "embedding"@);
        assert(w[1] == "whisper"@);
        assert(w[2] == "dall-e"@);
        assert(w[3] == "vision"@);
        assert(w[4] == "tts"@);
        assert(w[5] == "audio"@);
        assert(w[6] == "moderation"@);
    }
}

} // verus!
