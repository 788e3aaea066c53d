//! OpenAI-style model handles and a registry that maps model names to
//! model files.
use vstd::prelude::*;

use crate::util::str_eq;

verus! {

/// Token counts reported with a completion.
#[derive(Debug, Clone, Copy)]
pub struct CompletionUsage {
    /// Tokens in the prompt
    pub prompt_tokens: u32,
    /// Tokens generated
    pub completion_tokens: u32,
    /// Prompt and generated tokens together
    pub total_tokens: u32,
}

/// A handle on one model file, answering OpenAI-style requests.
#[derive(Debug)]
pub struct OpenAIAPI {
    model_path: String,
}

impl OpenAIAPI {
    /// The path of the model file.
    pub closed spec fn path_of(&self) -> Seq<char> {
        self.model_path@
    }

    /// Handle on the model at `model_path`.
    pub fn new(model_path: &str) -> (r: Self)
        ensures
            r.path_of() == model_path@,
    {
        OpenAIAPI { model_path: model_path.to_owned() }
    }

    /// The path of the model file.
    pub fn model_path(&self) -> (r: &str)
        ensures
            r@ == self.path_of(),
    {
        self.model_path.as_str()
    }
}

/// The map that a list of `(name, path)` pairs describes, later pairs
/// overriding earlier ones.
pub open spec fn pairs_map(s: Seq<(Seq<char>, Seq<char>)>) -> Map<Seq<char>, Seq<char>>
    decreases s.len(),
{
    if s.len() == 0 {
        Map::empty()
    } else {
        pairs_map(s.drop_last()).insert(s.last().0, s.last().1)
    }
}

/// No name occurs twice among the pairs.
pub open spec fn distinct_names(s: Seq<(Seq<char>, Seq<char>)>) -> bool {
    forall|i: int, j: int| 0 <= i < j < s.len() ==> (#[trigger] s[i]).0 != (#[trigger] s[j]).0
}

/// With distinct names, the map holds exactly the listed names, each with
/// its own path.
proof fn lemma_pairs_map_entries(s: Seq<(Seq<char>, Seq<char>)>)
    requires
        distinct_names(s),
    ensures
        forall|k: Seq<char>| #[trigger] pairs_map(s).contains_key(k) <==> exists|i: int| 0 <= i < s.len() && (#[trigger] s[i]).0 == k,
        forall|i: int| 0 <= i < s.len() ==> #[trigger] pairs_map(s)[s[i].0] == s[i].1,
    decreases s.len(),
{
    if s.len() > 0 {
        let p = s.drop_last();
        assert(distinct_names(p)) by {
            assert forall|i: int, j: int| 0 <= i < j < p.len() implies (#[trigger] p[i]).0 != (#[trigger] p[j]).0 by {
                assert(p[i] == s[i] && p[j] == s[j]);
            }
        }
        lemma_pairs_map_entries(p);
        assert(pairs_map(s) == pairs_map(p).insert(s.last().0, s.last().1));
        assert forall|k: Seq<char>| #[trigger] pairs_map(s).contains_key(k) implies exists|i: int| 0 <= i < s.len() && (#[trigger] s[i]).0 == k by {
            if k != s.last().0 {
                assert(pairs_map(p).contains_key(k));
                let i = choose|i: int| 0 <= i < p.len() && (#[trigger] p[i]).0 == k;
                assert(s[i] == p[i]);
            } else {
                assert(s[s.len() - 1].0 == k);
            }
        }
        assert forall|k: Seq<char>| (exists|i: int| 0 <= i < s.len() && (#[trigger] s[i]).0 == k) implies #[trigger] pairs_map(s).contains_key(k) by {
            let i = choose|i: int| 0 <= i < s.len() && (#[trigger] s[i]).0 == k;
            if i < s.len() - 1 {
                assert(p[i] == s[i]);
                assert(pairs_map(p).contains_key(k));
            }
        }
        assert forall|i: int| 0 <= i < s.len() implies #[trigger] pairs_map(s)[s[i].0] == s[i].1 by {
            if i < s.len() - 1 {
                assert(p[i] == s[i]);
                assert(s[i].0 != s[s.len() - 1].0);
                assert(pairs_map(p)[p[i].0] == p[i].1);
            }
        }
    }
}

/// Replacing the path of a listed name changes the map at that name only.
proof fn lemma_pairs_map_update(s: Seq<(Seq<char>, Seq<char>)>, i: int, path: Seq<char>)
    requires
        distinct_names(s),
        0 <= i < s.len(),
    ensures
        distinct_names(s.update(i, (s[i].0, path))),
        pairs_map(s.update(i, (s[i].0, path))) == pairs_map(s).insert(s[i].0, path),
{
    let t = s.update(i, (s[i].0, path));
    assert(distinct_names(t)) by {
        assert forall|a: int, b: int| 0 <= a < b < t.len() implies (#[trigger] t[a]).0 != (#[trigger] t[b]).0 by {
            assert(t[a].0 == s[a].0 && t[b].0 == s[b].0);
        }
    }
    lemma_pairs_map_entries(s);
    lemma_pairs_map_entries(t);
    let m = pairs_map(s).insert(s[i].0, path);
    assert forall|k: Seq<char>| #[trigger] pairs_map(t).contains_key(k) <==> m.contains_key(k) by {
        if pairs_map(t).contains_key(k) {
            let j = choose|j: int| 0 <= j < t.len() && (#[trigger] t[j]).0 == k;
            assert(s[j].0 == k);
        }
        if pairs_map(s).contains_key(k) {
            let j = choose|j: int| 0 <= j < s.len() && (#[trigger] s[j]).0 == k;
            assert(t[j].0 == k);
        }
        if k == s[i].0 {
            assert(t[i].0 == k);
        }
    }
    assert forall|k: Seq<char>| #[trigger] pairs_map(t).contains_key(k) implies pairs_map(t)[k] == m[k] by {
        let j = choose|j: int| 0 <= j < t.len() && (#[trigger] t[j]).0 == k;
        assert(t[j].0 == s[j].0);
        if j != i {
            assert(t[j] == s[j]);
        }
    }
    assert(pairs_map(t) =~= m);
}

/// Model names and the files they stand for.
#[derive(Debug)]
pub struct OpenAIModelRegistry {
    models: Vec<(String, String)>,
}

impl OpenAIModelRegistry {
    /// The registered `(name, path)` pairs, in registration order.
    pub closed spec fn entries(&self) -> Seq<(Seq<char>, Seq<char>)> {
        self.models@.map_values(|p: (String, String)| (p.0@, p.1@))
    }

    /// Each name is registered once.
    pub closed spec fn wf(&self) -> bool {
        distinct_names(self.entries())
    }

    /// Empty registry.
    pub fn new() -> (r: Self)
        ensures
            r.wf(),
            r@ == Map::<Seq<char>, Seq<char>>::empty(),
    {
        let r = OpenAIModelRegistry { models: Vec::new() };
        proof {
            assert(r.entries() =~= Seq::<(Seq<char>, Seq<char>)>::empty());
        }
        r
    }

    /// Registers `path` under `name`, replacing an earlier path of that name.
    pub fn register(&mut self, name: &str, path: &str)
        requires
            old(self).wf(),
        ensures
            final(self).wf(),
            final(self)@ == old(self)@.insert(name@, path@),
    {
        let ghost s = self.entries();
        let mut i: usize = 0;
        while i < self.models.len()
            invariant
                i <= self.models@.len(),
                s == self.entries(),
                s == old(self).entries(),
                distinct_names(s),
                forall|j: int| 0 <= j < i ==> (#[trigger] s[j]).0 != name@,
            decreases self.models@.len() - i,
        {
            if str_eq(self.models[i].0.as_str(), name) {
                let entry = (name.to_owned(), path.to_owned());
                proof {
                    assert(s[i as int].0 == name@);
                }
                self.models.set(i, entry);
                proof {
                    assert(self.entries() =~= s.update(i as int, (s[i as int].0, path@)));
                    lemma_pairs_map_update(s, i as int, path@);
                }
                return;
            }
            i = i + 1;
        }
        self.models.push((name.to_owned(), path.to_owned()));
        proof {
            let t = self.entries();
            assert(t =~= s.push((name@, path@)));
            assert(t.drop_last() =~= s);
            assert forall|a: int, b: int| 0 <= a < b < t.len() implies (#[trigger] t[a]).0 != (#[trigger] t[b]).0 by {
                if b < s.len() {
                    assert(t[a] == s[a] && t[b] == s[b]);
                } else {
                    assert(t[a] == s[a]);
                }
            }
        }
    }

    /// Handle on the model registered under `name`, if any.
    pub fn get(&self, name: &str) -> (r: Option<OpenAIAPI>)
        requires
            self.wf(),
        ensures
            self@.contains_key(name@) <==> r.is_some(),
            r matches Some(api) ==> api.path_of() == self@[name@],
    {
        let ghost s = self.entries();
        let mut i: usize = 0;
        while i < self.models.len()
            invariant
                i <= self.models@.len(),
                s == self.entries(),
                distinct_names(s),
                forall|j: int| 0 <= j < i ==> (#[trigger] s[j]).0 != name@,
            decreases self.models@.len() - i,
        {
            if str_eq(self.models[i].0.as_str(), name) {
                proof {
                    assert(s[i as int].0 == name@);
                    assert(s[i as int].1 == self.models@[i as int].1@);
                    lemma_pairs_map_entries(s);
                    assert(pairs_map(s)[s[i as int].0] == s[i as int].1);
                }
                return Some(OpenAIAPI::new(self.models[i].1.as_str()));
            }
            i = i + 1;
        }
        proof {
            lemma_pairs_map_entries(s);
            if self@.contains_key(name@) {
                let j = choose|j: int| 0 <= j < s.len() && (#[trigger] s[j]).0 == name@;
                assert(s[j].0 != name@);
            }
        }
        None
    }

    /// The registered names, each once.
    pub fn list(&self) -> (r: Vec<&str>)
        requires
            self.wf(),
        ensures
            r@.len() == self@.dom().len(),
            forall|i: int| 0 <= i < r@.len() ==> self@.contains_key(#[trigger] r@[i]@),
            forall|k: Seq<char>| #[trigger] self@.contains_key(k) ==> exists|i: int| 0 <= i < r@.len() && (#[trigger] r@[i])@ == k,
    {
        let ghost s = self.entries();
        proof {
            lemma_pairs_map_entries(s);
            lemma_distinct_len(s);
        }
        let mut out: Vec<&str> = Vec::new();
        let mut i: usize = 0;
        while i < self.models.len()
            invariant
                i <= self.models@.len(),
                s == self.entries(),
                out@.len() == i,
                forall|j: int| 0 <= j < i ==> (#[trigger] out@[j])@ == s[j].0,
            decreases self.models@.len() - i,
        {
            out.push(self.models[i].0.as_str());
            i = i + 1;
        }
        proof {
            assert forall|j: int| 0 <= j < out@.len() implies self@.contains_key(#[trigger] out@[j]@) by {
                assert(out@[j]@ == s[j].0);
            }
            assert forall|k: Seq<char>| #[trigger] self@.contains_key(k) implies exists|j: int| 0 <= j < out@.len() && (#[trigger] out@[j])@ == k by {
                let j = choose|j: int| 0 <= j < s.len() && (#[trigger] s[j]).0 == k;
                assert(out@[j]@ == k);
            }
        }
        out
    }
}

/// With distinct names, the map has one key per pair.
proof fn lemma_distinct_len(s: Seq<(Seq<char>, Seq<char>)>)
    requires
        distinct_names(s),
    ensures
        pairs_map(s).dom().len() == s.len(),
        pairs_map(s).dom().finite(),
    decreases s.len(),
{
    if s.len() > 0 {
        let p = s.drop_last();
        assert(distinct_names(p)) by {
            assert forall|i: int, j: int| 0 <= i < j < p.len() implies (#[trigger] p[i]).0 != (#[trigger] p[j]).0 by {
                assert(p[i] == s[i] && p[j] == s[j]);
            }
        }
        lemma_distinct_len(p);
        lemma_pairs_map_entries(p);
        if pairs_map(p).contains_key(s.last().0) {
            let i = choose|i: int| 0 <= i < p.len() && (#[trigger] p[i]).0 == s.last().0;
            assert(p[i] == s[i]);
            assert(s[i].0 != s[s.len() - 1].0);
        }
    }
}

impl View for OpenAIModelRegistry {
    type V = Map<Seq<char>, Seq<char>>;

    closed spec fn view(&self) -> Map<Seq<char>, Seq<char>> {
        pairs_map(self.entries())
    }
}

impl Default for OpenAIModelRegistry {
    fn default() -> (r: Self)
        ensures
            r.wf(),
            r@ == Map::<Seq<char>, Seq<char>>::empty(),
    {
        Self::new()
    }
}

} // verus!
