//! Tool registry: lookup by exact name, by synonym, by substring and by category.
use vstd::prelude::*;
use crate::text::{
    chars_of, contains_exec, contains_seq, lowercase_of, owned, starts_with_seq, str_eq, str_starts_with,
    to_lowercase,
};

verus! {

/// A tool the model can call: name, description and JSON parameter schema (as text).
#[derive(Debug)]
pub struct ToolDefinition {
    pub name: String,
    pub description: String,
    pub parameters: String,
}

/// Where a tool comes from.
#[derive(PartialEq, Eq, Structural, Clone, Copy)]
pub enum ToolSource {
    Builtin,
    Dynamic,
    Mcp,
    Skill,
}

/// A registered tool with its source and inferred category.
pub struct ToolSearchResult {
    pub definition: ToolDefinition,
    pub source: ToolSource,
    pub category: String,
}

impl ToolSearchResult {
    /// The tool's name.
    pub fn name(&self) -> (s: &str)
        ensures
            s@ == self.definition.name@,
    {
        self.definition.name.as_str()
    }
}

/// A field-by-field copy of a search result.
fn copy_result(r: &ToolSearchResult) -> (c: ToolSearchResult)
    ensures
        c == *r,
{
    ToolSearchResult {
        definition: ToolDefinition {
            name: r.definition.name.clone(),
            description: r.definition.description.clone(),
            parameters: r.definition.parameters.clone(),
        },
        source: r.source,
        category: r.category.clone(),
    }
}

/// Value stored under key `k` in an association list (the last entry with that key).
pub open spec fn assoc_get<V>(e: Seq<(Seq<char>, V)>, k: Seq<char>) -> Option<V>
    decreases e.len(),
{
    if e.len() == 0 {
        None
    } else if e.last().0 == k {
        Some(e.last().1)
    } else {
        assoc_get(e.drop_last(), k)
    }
}

/// No key occurs twice.
pub open spec fn keys_unique<V>(e: Seq<(Seq<char>, V)>) -> bool {
    forall|i: int, j: int| 0 <= i < j < e.len() ==> e[i].0 != e[j].0
}

/// `assoc_get` with a default of the empty sequence.
pub open spec fn assoc_list(e: Seq<(Seq<char>, Seq<Seq<char>>)>, k: Seq<char>) -> Seq<Seq<char>> {
    match assoc_get(e, k) {
        Some(v) => v,
        None => Seq::empty(),
    }
}

/// Category inferred from a tool name's prefix.
pub open spec fn category_of(name: Seq<char>) -> Seq<char> {
    if starts_with_seq(name, "jenkins"@) {
        "jenkins"@
    } else if starts_with_seq(name, "gitlab"@) {
        "gitlab"@
    } else if starts_with_seq(name, "docker"@) {
        "docker"@
    } else if starts_with_seq(name, "k8s"@) || starts_with_seq(name, "kubectl"@) {
        "k8s"@
    } else {
        "builtin"@
    }
}

/// Results contributed by the first `j` synonym targets, skipping names already seen
/// (the exact query when it matched, and earlier targets).
pub open spec fn synonym_results(
    tools: Seq<(Seq<char>, ToolSearchResult)>,
    names: Seq<Seq<char>>,
    seen0: Set<Seq<char>>,
    j: int,
) -> Seq<ToolSearchResult>
    decreases j,
{
    if j <= 0 || j > names.len() {
        Seq::empty()
    } else {
        let prev = synonym_results(tools, names, seen0, j - 1);
        let n = names[j - 1];
        if seen0.contains(n) || names.subrange(0, j - 1).contains(n) {
            prev
        } else {
            match assoc_get(tools, n) {
                Some(r) => prev.push(r),
                None => prev,
            }
        }
    }
}

/// Tools among the first `i` entries whose lower-cased name contains `q`.
pub open spec fn substring_results(tools: Seq<(Seq<char>, ToolSearchResult)>, q: Seq<char>, i: int) -> Seq<
    ToolSearchResult,
>
    decreases i,
{
    if i <= 0 || i > tools.len() {
        Seq::empty()
    } else if contains_seq(lowercase_of(tools[i - 1].0), q) {
        substring_results(tools, q, i - 1).push(tools[i - 1].1)
    } else {
        substring_results(tools, q, i - 1)
    }
}

/// The exact match, if any, then the synonym targets of the lower-cased query.
pub open spec fn direct_results(
    tools: Seq<(Seq<char>, ToolSearchResult)>,
    synonyms: Seq<(Seq<char>, Seq<Seq<char>>)>,
    query: Seq<char>,
) -> Seq<ToolSearchResult> {
    let exact: Seq<ToolSearchResult> = match assoc_get(tools, query) {
        Some(r) => seq![r],
        None => Seq::empty(),
    };
    let seen0: Set<Seq<char>> = if assoc_get(tools, query) is Some {
        set![query]
    } else {
        Set::empty()
    };
    let names = assoc_list(synonyms, lowercase_of(query));
    exact + synonym_results(tools, names, seen0, names.len() as int)
}

/// Results of a search: the exact match, then synonym targets; when both give nothing,
/// every tool whose lower-cased name contains the lower-cased query.
pub open spec fn search_results(
    tools: Seq<(Seq<char>, ToolSearchResult)>,
    synonyms: Seq<(Seq<char>, Seq<Seq<char>>)>,
    query: Seq<char>,
) -> Seq<ToolSearchResult> {
    let first = direct_results(tools, synonyms, query);
    if first.len() > 0 {
        first
    } else {
        substring_results(tools, lowercase_of(query), tools.len() as int)
    }
}

/// Results for a category: the tools registered under it, in registration order.
pub open spec fn category_results(
    tools: Seq<(Seq<char>, ToolSearchResult)>,
    names: Seq<Seq<char>>,
    j: int,
) -> Seq<ToolSearchResult>
    decreases j,
{
    if j <= 0 || j > names.len() {
        Seq::empty()
    } else {
        match assoc_get(tools, names[j - 1]) {
            Some(r) => category_results(tools, names, j - 1).push(r),
            None => category_results(tools, names, j - 1),
        }
    }
}

/// The characters of each string.
pub open spec fn strings_view(v: Seq<String>) -> Seq<Seq<char>> {
    v.map_values(|s: String| s@)
}

/// An association list of string lists, viewed as characters.
pub open spec fn lists_view(e: Seq<(String, Vec<String>)>) -> Seq<(Seq<char>, Seq<Seq<char>>)> {
    e.map_values(|p: (String, Vec<String>)| (p.0@, strings_view(p.1@)))
}

/// The characters of each string slice.
pub open spec fn strs_view(s: Seq<&str>) -> Seq<Seq<char>> {
    s.map_values(|x: &str| x@)
}

/// Number of elements of `s` equal to `q`.
pub open spec fn count_eq(s: Seq<Seq<char>>, q: Seq<char>) -> nat
    decreases s.len(),
{
    if s.len() == 0 {
        0
    } else {
        count_eq(s.drop_last(), q) + (if s.last() == q { 1nat } else { 0nat })
    }
}

/// `x` repeated `n` times.
pub open spec fn repeat_seq(x: Seq<char>, n: nat) -> Seq<Seq<char>> {
    Seq::new(n, |k: int| x)
}

/// Every name filed under a category is registered and has that category, and every
/// registered tool is filed under its category.
pub open spec fn categories_match(
    tools: Seq<(Seq<char>, ToolSearchResult)>,
    categories: Seq<(Seq<char>, Seq<Seq<char>>)>,
) -> bool {
    &&& forall|k: Seq<char>, n: Seq<char>| #[trigger] assoc_list(categories, k).contains(n)
        ==> k == category_of(n) && assoc_get(tools, n) is Some
    &&& forall|n: Seq<char>| #[trigger] assoc_get(tools, n) is Some
        ==> assoc_list(categories, category_of(n)).contains(n)
}

/// Registry of tools, synonyms and categories.
pub struct ToolRegistry {
    tools: Vec<(String, ToolSearchResult)>,
    synonyms: Vec<(String, Vec<String>)>,
    categories: Vec<(String, Vec<String>)>,
}

/// Index of key `k` in an association list of strings.
fn find_key<V>(e: &Vec<(String, V)>, k: &str) -> (r: Option<usize>)
    ensures
        match r {
            Some(i) => i < e@.len() && e@[i as int].0@ == k@,
            None => forall|i: int| 0 <= i < e@.len() ==> e@[i].0@ != k@,
        },
{
    let kk = owned(k);
    let mut i: usize = 0;
    while i < e.len()
        invariant
            i <= e.len(),
            kk@ == k@,
            forall|j: int| 0 <= j < i ==> e@[j].0@ != k@,
        decreases e.len() - i,
    {
        if e[i].0 == kk {
            return Some(i);
        }
        i = i + 1;
    }
    None
}

proof fn lemma_assoc_get_at<V>(e: Seq<(Seq<char>, V)>, i: int)
    requires
        keys_unique(e),
        0 <= i < e.len(),
    ensures
        assoc_get(e, e[i].0) == Some(e[i].1),
    decreases e.len(),
{
    if i < e.len() - 1 {
        assert(e.last().0 != e[i].0);
        assert(e.drop_last()[i] == e[i]);
        lemma_assoc_get_at(e.drop_last(), i);
    }
}

proof fn lemma_assoc_get_absent<V>(e: Seq<(Seq<char>, V)>, k: Seq<char>)
    requires
        forall|i: int| 0 <= i < e.len() ==> e[i].0 != k,
    ensures
        assoc_get(e, k) is None,
    decreases e.len(),
{
    if e.len() > 0 {
        lemma_assoc_get_absent(e.drop_last(), k);
    }
}

proof fn lemma_assoc_get_push<V>(e: Seq<(Seq<char>, V)>, k: Seq<char>, v: V, q: Seq<char>)
    ensures
        assoc_get(e.push((k, v)), q) == if q == k { Some(v) } else { assoc_get(e, q) },
{
    assert(e.push((k, v)).drop_last() =~= e);
}

proof fn lemma_assoc_get_update<V>(e: Seq<(Seq<char>, V)>, i: int, v: V, q: Seq<char>)
    requires
        keys_unique(e),
        0 <= i < e.len(),
    ensures
        keys_unique(e.update(i, (e[i].0, v))),
        assoc_get(e.update(i, (e[i].0, v)), q) == if q == e[i].0 { Some(v) } else { assoc_get(e, q) },
    decreases e.len(),
{
    let u = e.update(i, (e[i].0, v));
    if i == e.len() - 1 {
        assert(u.drop_last() =~= e.drop_last());
    } else {
        assert(u.drop_last() =~= e.drop_last().update(i, (e[i].0, v)));
        assert(e.drop_last()[i] == e[i]);
        lemma_assoc_get_update(e.drop_last(), i, v, q);
    }
}

/// A copy of a list of strings.
fn copy_strings(v: &Vec<String>) -> (r: Vec<String>)
    ensures
        r@ == v@,
{
    let mut r: Vec<String> = Vec::new();
    let mut i: usize = 0;
    while i < v.len()
        invariant
            i <= v.len(),
            r@ == v@.subrange(0, i as int),
        decreases v.len() - i,
    {
        r.push(v[i].clone());
        i = i + 1;
        assert(r@ =~= v@.subrange(0, i as int));
    }
    assert(v@.subrange(0, v@.len() as int) =~= v@);
    r
}

/// Appends `name` to the list stored under `key`, creating it when absent.
fn append_to_list(e: &mut Vec<(String, Vec<String>)>, key: &str, name: &str)
    requires
        keys_unique(lists_view(old(e)@)),
    ensures
        keys_unique(lists_view(final(e)@)),
        forall|q: Seq<char>|
            #[trigger] assoc_list(lists_view(final(e)@), q)
                == if q == key@ {
                assoc_list(lists_view(old(e)@), q).push(name@)
            } else {
                assoc_list(lists_view(old(e)@), q)
            },
{
    let ghost before = lists_view(e@);
    match find_key(e, key) {
        Some(i) => {
            let mut list = copy_strings(&e[i].1);
            let ghost old_list = strings_view(e@[i as int].1@);
            assert(strings_view(list@) =~= old_list);
            list.push(owned(name));
            let k = e[i].0.clone();
            let ghost new_list = list@;
            e.set(i, (k, list));
            proof {
                let after = lists_view(e@);
                assert(strings_view(new_list) =~= old_list.push(name@));
                assert(after[i as int] == (before[i as int].0, old_list.push(name@)));
                assert(after =~= before.update(i as int, (before[i as int].0, old_list.push(name@))));
                lemma_assoc_get_at(before, i as int);
                assert forall|q: Seq<char>|
                    #[trigger] assoc_list(after, q) == if q == key@ {
                        assoc_list(before, q).push(name@)
                    } else {
                        assoc_list(before, q)
                    } by {
                    lemma_assoc_get_update(before, i as int, old_list.push(name@), q);
                }
                lemma_assoc_get_update(before, i as int, old_list.push(name@), key@);
            }
        },
        None => {
            let mut list: Vec<String> = Vec::new();
            list.push(owned(name));
            let ghost new_list = list@;
            e.push((owned(key), list));
            proof {
                let after = lists_view(e@);
                assert(strings_view(new_list) =~= seq![name@]);
                assert(after.last() == (key@, seq![name@]));
                assert(after =~= before.push((key@, seq![name@])));
                lemma_assoc_get_absent(before, key@);
                assert forall|q: Seq<char>|
                    #[trigger] assoc_list(after, q) == if q == key@ {
                        assoc_list(before, q).push(name@)
                    } else {
                        assoc_list(before, q)
                    } by {
                    lemma_assoc_get_push(before, key@, seq![name@], q);
                    if q == key@ {
                        assert(Seq::<Seq<char>>::empty().push(name@) =~= seq![name@]);
                    }
                }
            }
        },
    }
}

/// Category of a tool name, as registration infers it.
pub fn infer_category(name: &str) -> (c: String)
    ensures
        c@ == category_of(name@),
{
    if str_starts_with(name, "jenkins") {
        owned("jenkins")
    } else if str_starts_with(name, "gitlab") {
        owned("gitlab")
    } else if str_starts_with(name, "docker") {
        owned("docker")
    } else if str_starts_with(name, "k8s") || str_starts_with(name, "kubectl") {
        owned("k8s")
    } else {
        owned("builtin")
    }
}

impl ToolRegistry {
    /// Registered tools keyed by name, in registration order.
    pub closed spec fn tools(&self) -> Seq<(Seq<char>, ToolSearchResult)> {
        self.tools@.map_values(|p: (String, ToolSearchResult)| (p.0@, p.1))
    }

    /// Synonym → tool names.
    pub closed spec fn synonyms(&self) -> Seq<(Seq<char>, Seq<Seq<char>>)> {
        lists_view(self.synonyms@)
    }

    /// Category → tool names.
    pub closed spec fn categories(&self) -> Seq<(Seq<char>, Seq<Seq<char>>)> {
        lists_view(self.categories@)
    }

    /// Each key is stored once, and the category lists hold exactly the registered tools,
    /// each under its inferred category.
    pub closed spec fn wf(&self) -> bool {
        &&& keys_unique(self.tools())
        &&& keys_unique(self.synonyms())
        &&& keys_unique(self.categories())
        &&& categories_match(self.tools(), self.categories())
    }

    pub fn new() -> (r: ToolRegistry)
        ensures
            r.wf(),
            r.tools().len() == 0,
            r.synonyms().len() == 0,
            r.categories().len() == 0,
            forall|q: Seq<char>| #[trigger] assoc_list(r.synonyms(), q) == Seq::<Seq<char>>::empty(),
            forall|q: Seq<char>| #[trigger] assoc_list(r.categories(), q) == Seq::<Seq<char>>::empty(),
    {
        let r = ToolRegistry { tools: Vec::new(), synonyms: Vec::new(), categories: Vec::new() };
        assert(r.synonyms().len() == 0);
        assert(r.categories().len() == 0);
        r
    }

    /// Registers (or replaces) a tool and files its name under the inferred category.
    pub fn register(&mut self, name: &str, source: ToolSource, def: ToolDefinition)
        requires
            old(self).wf(),
        ensures
            final(self).wf(),
            forall|q: Seq<char>| #[trigger] assoc_get(final(self).tools(), q) == if q == name@ {
                Some(ToolSearchResult { definition: def, source, category: final(self).category_string_of(name@) })
            } else {
                assoc_get(old(self).tools(), q)
            },
            final(self).category_string_of(name@)@ == category_of(name@),
            final(self).synonyms() == old(self).synonyms(),
            forall|q: Seq<char>| #[trigger] assoc_list(final(self).categories(), q) == if q == category_of(name@) {
                assoc_list(old(self).categories(), q).push(name@)
            } else {
                assoc_list(old(self).categories(), q)
            },
            // A tool registered before keeps its position; a new one comes last.
            (exists|i: int| 0 <= i < old(self).tools().len() && old(self).tools()[i].0 == name@)
                ==> final(self).tools().len() == old(self).tools().len(),
            !(exists|i: int| 0 <= i < old(self).tools().len() && old(self).tools()[i].0 == name@)
                ==> final(self).tools().len() == old(self).tools().len() + 1,
    {
        let category = infer_category(name);
        let result = ToolSearchResult { definition: def, source, category: category.clone() };
        let ghost res = result;
        let ghost before = self.tools();
        let ghost cats0 = self.categories();
        match find_key(&self.tools, name) {
            Some(i) => {
                let k = self.tools[i].0.clone();
                self.tools.set(i, (k, result));
                proof {
                    assert(self.tools() =~= before.update(i as int, (before[i as int].0, res)));
                    assert forall|q: Seq<char>| #[trigger] assoc_get(self.tools(), q) == if q == name@ {
                        Some(res)
                    } else {
                        assoc_get(before, q)
                    } by {
                        lemma_assoc_get_update(before, i as int, res, q);
                    }
                    lemma_assoc_get_update(before, i as int, res, name@);
                }
            },
            None => {
                self.tools.push((owned(name), result));
                proof {
                    assert(self.tools() =~= before.push((name@, res)));
                    assert forall|q: Seq<char>| #[trigger] assoc_get(self.tools(), q) == if q == name@ {
                        Some(res)
                    } else {
                        assoc_get(before, q)
                    } by {
                        lemma_assoc_get_push(before, name@, res, q);
                    }
                    assert forall|i: int, j: int| 0 <= i < j < self.tools().len() implies self.tools()[i].0 != self.tools()[j].0 by {
                        if j == before.len() {
                            assert(before[i].0 != name@);
                        }
                    }
                }
            },
        }
        append_to_list(&mut self.categories, category.as_str(), name);
        proof {
            let tools = self.tools();
            let cats = self.categories();
            assert(category@ == category_of(name@));
            assert forall|k: Seq<char>, n: Seq<char>| #[trigger] assoc_list(cats, k).contains(n)
                implies k == category_of(n) && assoc_get(tools, n) is Some by {
                let l0 = assoc_list(cats0, k);
                let j = choose|j: int| 0 <= j < assoc_list(cats, k).len() && assoc_list(cats, k)[j] == n;
                if k == category_of(name@) && j == l0.len() {
                    assert(n == name@);
                } else {
                    assert(l0[j] == n);
                    assert(l0.contains(n));
                }
            }
            assert forall|n: Seq<char>| #[trigger] assoc_get(tools, n) is Some
                implies assoc_list(cats, category_of(n)).contains(n) by {
                let l0 = assoc_list(cats0, category_of(n));
                let l1 = assoc_list(cats, category_of(n));
                if n == name@ {
                    assert(l1[l0.len() as int] == n);
                } else {
                    assert(assoc_get(before, n) is Some);
                    assert(l0.contains(n));
                    let j = choose|j: int| 0 <= j < l0.len() && l0[j] == n;
                    assert(l1[j] == n);
                }
            }
        }
    }

    /// The category string stored with a registered tool (spec helper).
    pub closed spec fn category_string_of(&self, name: Seq<char>) -> String {
        match assoc_get(self.tools(), name) {
            Some(r) => r.category,
            None => arbitrary(),
        }
    }

    /// Files `tool_name` under each synonym.
    pub fn add_synonyms(&mut self, tool_name: &str, synonyms: &[&str])
        requires
            old(self).wf(),
        ensures
            final(self).wf(),
            final(self).tools() == old(self).tools(),
            final(self).categories() == old(self).categories(),
            forall|q: Seq<char>| #[trigger] assoc_list(final(self).synonyms(), q) == assoc_list(
                old(self).synonyms(),
                q,
            ) + repeat_seq(tool_name@, count_eq(strs_view(synonyms@), q)),
    {
        let ghost sv = strs_view(synonyms@);
        let mut i: usize = 0;
        while i < synonyms.len()
            invariant
                i <= synonyms.len(),
                sv == strs_view(synonyms@),
                self.wf(),
                self.tools() == old(self).tools(),
                self.categories() == old(self).categories(),
                forall|q: Seq<char>| #[trigger] assoc_list(self.synonyms(), q) == assoc_list(
                    old(self).synonyms(),
                    q,
                ) + repeat_seq(tool_name@, count_eq(sv.subrange(0, i as int), q)),
            decreases synonyms.len() - i,
        {
            append_to_list(&mut self.synonyms, synonyms[i], tool_name);
            i = i + 1;
            proof {
                assert forall|q: Seq<char>| #[trigger] assoc_list(self.synonyms(), q) == assoc_list(
                    old(self).synonyms(),
                    q,
                ) + repeat_seq(tool_name@, count_eq(sv.subrange(0, i as int), q)) by {
                    let a = sv.subrange(0, i as int);
                    assert(a.drop_last() =~= sv.subrange(0, i - 1));
                    assert(a.last() == synonyms@[i - 1]@);
                    let n0 = count_eq(sv.subrange(0, i - 1), q);
                    if synonyms@[i - 1]@ == q {
                        assert(repeat_seq(tool_name@, n0 + 1) =~= repeat_seq(tool_name@, n0).push(tool_name@));
                        assert(assoc_list(old(self).synonyms(), q) + repeat_seq(tool_name@, n0 + 1) =~= (assoc_list(old(self).synonyms(), q) + repeat_seq(tool_name@, n0)).push(tool_name@));
                    }
                }
            }
        }
        assert(sv.subrange(0, synonyms@.len() as int) =~= sv);
    }

    /// Searches by exact name, then synonyms (lower-cased query), else by substring.
    pub fn search(&self, query: &str) -> (r: Vec<ToolSearchResult>)
        requires
            self.wf(),
        ensures
            r@ == search_results(self.tools(), self.synonyms(), query@),
    {
        let ql = to_lowercase(query);
        let ghost tools = self.tools();
        let ghost names = assoc_list(self.synonyms(), ql@);
        let mut results: Vec<ToolSearchResult> = Vec::new();
        let mut exact = false;
        match find_key(&self.tools, query) {
            Some(i) => {
                proof {
                    lemma_assoc_get_at(tools, i as int);
                }
                results.push(copy_result(&self.tools[i].1));
                exact = true;
            },
            None => {
                proof {
                    lemma_assoc_get_absent(tools, query@);
                }
            },
        }
        let ghost seen0: Set<Seq<char>> = if exact { set![query@] } else { Set::empty() };
        let ghost exact_part = results@;
        match find_key(&self.synonyms, ql.as_str()) {
            Some(si) => {
                proof {
                    lemma_assoc_get_at(self.synonyms(), si as int);
                }
                let list = &self.synonyms[si].1;
                assert(strings_view(list@) == names);
                let mut j: usize = 0;
                while j < list.len()
                    invariant
                        j <= list.len(),
                        strings_view(list@) == names,
                        tools == self.tools(),
                        self.wf(),
                        seen0 == (if exact { set![query@] } else { Set::<Seq<char>>::empty() }),
                        results@ == exact_part + synonym_results(tools, names, seen0, j as int),
                    decreases list.len() - j,
                {
                    let name = &list[j];
                    let mut seen = exact && str_eq(name.as_str(), query);
                    let mut t: usize = 0;
                    while t < j && !seen
                        invariant
                            t <= j < list.len(),
                            strings_view(list@) == names,
                            seen == (exact && name@ == query@ || exists|u: int| 0 <= u < t && names[u] == name@),
                        decreases j - t,
                    {
                        assert(names[t as int] == list@[t as int]@);
                        if list[t] == *name {
                            seen = true;
                        }
                        t = t + 1;
                    }
                    proof {
                        assert(names[j as int] == name@);
                        if names.subrange(0, j as int).contains(name@) {
                            let u = choose|u: int| 0 <= u < j && names.subrange(0, j as int)[u] == name@;
                            assert(names[u] == name@);
                        }
                        if exists|u: int| 0 <= u < j && names[u] == name@ {
                            let u = choose|u: int| 0 <= u < j && names[u] == name@;
                            assert(names.subrange(0, j as int)[u] == name@);
                        }
                        assert(seen == (seen0.contains(name@) || names.subrange(0, j as int).contains(name@)));
                    }
                    if !seen {
                        match find_key(&self.tools, name.as_str()) {
                            Some(i) => {
                                proof {
                                    lemma_assoc_get_at(tools, i as int);
                                }
                                results.push(copy_result(&self.tools[i].1));
                            },
                            None => {
                                proof {
                                    lemma_assoc_get_absent(tools, name@);
                                }
                            },
                        }
                    }
                    j = j + 1;
                    proof {
                        assert(results@ =~= exact_part + synonym_results(tools, names, seen0, j as int));
                    }
                }
            },
            None => {
                proof {
                    lemma_assoc_get_absent(self.synonyms(), ql@);
                    assert(names == Seq::<Seq<char>>::empty());
                    assert(results@ =~= exact_part + synonym_results(tools, names, seen0, 0));
                }
            },
        }
        if results.len() == 0 {
            let qv = chars_of(ql.as_str());
            let mut i: usize = 0;
            while i < self.tools.len()
                invariant
                    i <= self.tools.len(),
                    tools == self.tools(),
                    qv@ == ql@,
                    results@ == substring_results(tools, ql@, i as int),
                decreases self.tools.len() - i,
            {
                let lname = to_lowercase(self.tools[i].0.as_str());
                let lv = chars_of(lname.as_str());
                if contains_exec(&lv, &qv) {
                    results.push(copy_result(&self.tools[i].1));
                }
                i = i + 1;
            }
        }
        results
    }

    /// Tools filed under `category`, in registration order.
    pub fn search_category(&self, category: &str) -> (r: Vec<ToolSearchResult>)
        requires
            self.wf(),
        ensures
            r@ == category_results(self.tools(), assoc_list(self.categories(), category@), assoc_list(self.categories(), category@).len() as int),
    {
        let mut results: Vec<ToolSearchResult> = Vec::new();
        let ghost tools = self.tools();
        match find_key(&self.categories, category) {
            Some(ci) => {
                proof {
                    lemma_assoc_get_at(self.categories(), ci as int);
                }
                let list = &self.categories[ci].1;
                let ghost names = strings_view(list@);
                let mut j: usize = 0;
                while j < list.len()
                    invariant
                        j <= list.len(),
                        names == strings_view(list@),
                        tools == self.tools(),
                        self.wf(),
                        results@ == category_results(tools, names, j as int),
                    decreases list.len() - j,
                {
                    match find_key(&self.tools, list[j].as_str()) {
                        Some(i) => {
                            proof {
                                lemma_assoc_get_at(tools, i as int);
                            }
                            results.push(copy_result(&self.tools[i].1));
                        },
                        None => {
                            proof {
                                lemma_assoc_get_absent(tools, list@[j as int]@);
                            }
                        },
                    }
                    j = j + 1;
                }
            },
            None => {
                proof {
                    lemma_assoc_get_absent(self.categories(), category@);
                }
            },
        }
        results
    }

    /// All registered tools, each once, in registration order.
    pub fn list_tools(&self) -> (r: Vec<ToolSearchResult>)
        ensures
            r@ == self.tools().map_values(|p: (Seq<char>, ToolSearchResult)| p.1),
    {
        let mut results: Vec<ToolSearchResult> = Vec::new();
        let mut i: usize = 0;
        while i < self.tools.len()
            invariant
                i <= self.tools.len(),
                results@ == self.tools().subrange(0, i as int).map_values(|p: (Seq<char>, ToolSearchResult)| p.1),
            decreases self.tools.len() - i,
        {
            results.push(copy_result(&self.tools[i].1));
            i = i + 1;
            assert(results@ =~= self.tools().subrange(0, i as int).map_values(|p: (Seq<char>, ToolSearchResult)| p.1));
        }
        assert(self.tools().subrange(0, self.tools.len() as int) =~= self.tools());
        results
    }
}

/// A search for the exact name of a registered tool returns that tool first.
pub proof fn lemma_exact_name_first(
    tools: Seq<(Seq<char>, ToolSearchResult)>,
    synonyms: Seq<(Seq<char>, Seq<Seq<char>>)>,
    name: Seq<char>,
)
    requires
        assoc_get(tools, name) is Some,
    ensures
        search_results(tools, synonyms, name).len() >= 1,
        search_results(tools, synonyms, name)[0] == assoc_get(tools, name)->0,
{
    let names = assoc_list(synonyms, lowercase_of(name));
    let exact: Seq<ToolSearchResult> = seq![assoc_get(tools, name)->0];
    let first = exact + synonym_results(tools, names, set![name], names.len() as int);
    assert(first[0] == exact[0]);
}


proof fn lemma_contains_push<A>(s: Seq<A>, x: A, y: A)
    ensures
        s.push(x).contains(y) <==> (s.contains(y) || y == x),
{
    if s.contains(y) {
        let j = choose|j: int| 0 <= j < s.len() && s[j] == y;
        assert(s.push(x)[j] == y);
    }
    if y == x {
        assert(s.push(x)[s.len() as int] == y);
    }
    if s.push(x).contains(y) {
        let j = choose|j: int| 0 <= j < s.len() + 1 && s.push(x)[j] == y;
        if j < s.len() {
            assert(s[j] == y);
        }
    }
}

proof fn lemma_synonym_results_contains(
    tools: Seq<(Seq<char>, ToolSearchResult)>,
    names: Seq<Seq<char>>,
    seen0: Set<Seq<char>>,
    j: int,
    t: Seq<char>,
)
    requires
        0 <= j <= names.len(),
        names.subrange(0, j).contains(t),
        assoc_get(tools, t) is Some,
        !seen0.contains(t),
    ensures
        synonym_results(tools, names, seen0, j).contains(assoc_get(tools, t)->0),
    decreases j,
{
    let res = assoc_get(tools, t)->0;
    let prev = synonym_results(tools, names, seen0, j - 1);
    let n = names[j - 1];
    if names.subrange(0, j - 1).contains(t) {
        lemma_synonym_results_contains(tools, names, seen0, j - 1, t);
        if !(seen0.contains(n) || names.subrange(0, j - 1).contains(n)) {
            if let Some(r) = assoc_get(tools, n) {
                lemma_contains_push(prev, r, res);
            }
        }
    } else {
        let u = choose|u: int| 0 <= u < j && names.subrange(0, j)[u] == t;
        if u < j - 1 {
            assert(names.subrange(0, j - 1)[u] == t);
        }
        assert(n == t);
        lemma_contains_push(prev, res, res);
    }
}

/// When a registered tool `t` is listed under the lower-cased query as a synonym, a search
/// for that query returns `t`'s entry.
pub proof fn lemma_synonym_finds_tool(
    tools: Seq<(Seq<char>, ToolSearchResult)>,
    synonyms: Seq<(Seq<char>, Seq<Seq<char>>)>,
    query: Seq<char>,
    t: Seq<char>,
)
    requires
        assoc_list(synonyms, lowercase_of(query)).contains(t),
        assoc_get(tools, t) is Some,
    ensures
        search_results(tools, synonyms, query).contains(assoc_get(tools, t)->0),
{
    let names = assoc_list(synonyms, lowercase_of(query));
    let exact: Seq<ToolSearchResult> = match assoc_get(tools, query) {
        Some(r) => seq![r],
        None => Seq::empty(),
    };
    let seen0: Set<Seq<char>> = if assoc_get(tools, query) is Some {
        set![query]
    } else {
        Set::empty()
    };
    let syn = synonym_results(tools, names, seen0, names.len() as int);
    let first = exact + syn;
    let res = assoc_get(tools, t)->0;
    if seen0.contains(t) {
        assert(first[0] == res);
    } else {
        assert(names.subrange(0, names.len() as int) =~= names);
        lemma_synonym_results_contains(tools, names, seen0, names.len() as int, t);
        let k = choose|k: int| 0 <= k < syn.len() && syn[k] == res;
        assert(first[exact.len() + k] == res);
    }
    assert(first == direct_results(tools, synonyms, query));
}

proof fn lemma_substring_members(tools: Seq<(Seq<char>, ToolSearchResult)>, q: Seq<char>, i: int, x: ToolSearchResult)
    requires
        0 <= i <= tools.len(),
    ensures
        substring_results(tools, q, i).contains(x) <==> exists|u: int|
            0 <= u < i && contains_seq(lowercase_of(tools[u].0), q) && #[trigger] tools[u].1 == x,
    decreases i,
{
    if i > 0 {
        lemma_substring_members(tools, q, i - 1, x);
        let prev = substring_results(tools, q, i - 1);
        if contains_seq(lowercase_of(tools[i - 1].0), q) {
            lemma_contains_push(prev, tools[i - 1].1, x);
        }
        if exists|u: int| 0 <= u < i && contains_seq(lowercase_of(tools[u].0), q) && #[trigger] tools[u].1 == x {
            let u = choose|u: int| 0 <= u < i && contains_seq(lowercase_of(tools[u].0), q) && #[trigger] tools[u].1 == x;
            if u < i - 1 {
                assert(exists|v: int| 0 <= v < i - 1 && contains_seq(lowercase_of(tools[v].0), q) && #[trigger] tools[v].1 == x);
            }
        }
    }
}

/// When neither the exact name nor a synonym matches, a search returns the entries of the
/// registered tools whose lower-cased name contains the lower-cased query, and no others.
pub proof fn lemma_substring_fallback(
    tools: Seq<(Seq<char>, ToolSearchResult)>,
    synonyms: Seq<(Seq<char>, Seq<Seq<char>>)>,
    query: Seq<char>,
    x: ToolSearchResult,
)
    requires
        direct_results(tools, synonyms, query).len() == 0,
    ensures
        search_results(tools, synonyms, query).contains(x) <==> exists|u: int|
            0 <= u < tools.len() && contains_seq(lowercase_of(tools[u].0), lowercase_of(query))
                && #[trigger] tools[u].1 == x,
{
    lemma_substring_members(tools, lowercase_of(query), tools.len() as int, x);
}

proof fn lemma_category_members(tools: Seq<(Seq<char>, ToolSearchResult)>, names: Seq<Seq<char>>, j: int, x: ToolSearchResult)
    requires
        0 <= j <= names.len(),
    ensures
        category_results(tools, names, j).contains(x) <==> exists|u: int|
            0 <= u < j && #[trigger] assoc_get(tools, names[u]) == Some(x),
    decreases j,
{
    if j > 0 {
        lemma_category_members(tools, names, j - 1, x);
        let prev = category_results(tools, names, j - 1);
        if let Some(r) = assoc_get(tools, names[j - 1]) {
            lemma_contains_push(prev, r, x);
        }
        if exists|u: int| 0 <= u < j && #[trigger] assoc_get(tools, names[u]) == Some(x) {
            let u = choose|u: int| 0 <= u < j && #[trigger] assoc_get(tools, names[u]) == Some(x);
            if u < j - 1 {
                assert(exists|v: int| 0 <= v < j - 1 && #[trigger] assoc_get(tools, names[v]) == Some(x));
            }
        }
    }
}

/// A category search on a well-formed registry returns the entries of exactly the registered
/// tools whose inferred category is `c`; for a string that is not one of the five categories
/// it returns nothing.
pub proof fn lemma_category_search(r: ToolRegistry, c: Seq<char>, x: ToolSearchResult)
    requires
        r.wf(),
    ensures
        ({
            let l = assoc_list(r.categories(), c);
            &&& category_results(r.tools(), l, l.len() as int).contains(x) <==> exists|n: Seq<char>|
                #[trigger] assoc_get(r.tools(), n) == Some(x) && category_of(n) == c
            &&& !(c == "jenkins"@ || c == "gitlab"@ || c == "docker"@ || c == "k8s"@ || c == "builtin"@)
                ==> category_results(r.tools(), l, l.len() as int).len() == 0
        }),
{
    let tools = r.tools();
    let l = assoc_list(r.categories(), c);
    let res = category_results(tools, l, l.len() as int);
    lemma_category_members(tools, l, l.len() as int, x);
    if res.contains(x) {
        let u = choose|u: int| 0 <= u < l.len() && #[trigger] assoc_get(tools, l[u]) == Some(x);
        assert(l.contains(l[u]));
        assert(category_of(l[u]) == c);
    }
    if exists|n: Seq<char>| #[trigger] assoc_get(tools, n) == Some(x) && category_of(n) == c {
        let n = choose|n: Seq<char>| #[trigger] assoc_get(tools, n) == Some(x) && category_of(n) == c;
        assert(l.contains(n));
        let u = choose|u: int| 0 <= u < l.len() && l[u] == n;
        assert(assoc_get(tools, l[u]) == Some(x));
    }
    if !(c == "jenkins"@ || c == "gitlab"@ || c == "docker"@ || c == "k8s"@ || c == "builtin"@) && res.len() > 0 {
        let y = res[0];
        lemma_category_members(tools, l, l.len() as int, y);
        assert(res.contains(y));
        let u = choose|u: int| 0 <= u < l.len() && #[trigger] assoc_get(tools, l[u]) == Some(y);
        assert(l.contains(l[u]));
        assert(category_of(l[u]) == c);
    }
}

proof fn lemma_synonym_results_prefix_list(
    tools: Seq<(Seq<char>, ToolSearchResult)>,
    short: Seq<Seq<char>>,
    long: Seq<Seq<char>>,
    seen0: Set<Seq<char>>,
    j: int,
)
    requires
        short.is_prefix_of(long),
        0 <= j <= short.len(),
    ensures
        synonym_results(tools, long, seen0, j) == synonym_results(tools, short, seen0, j),
    decreases j,
{
    if j > 0 {
        lemma_synonym_results_prefix_list(tools, short, long, seen0, j - 1);
        assert(long[j - 1] == short[j - 1]);
        assert(long.subrange(0, j - 1) =~= short.subrange(0, j - 1));
    }
}

proof fn lemma_synonym_results_grow(
    tools: Seq<(Seq<char>, ToolSearchResult)>,
    names: Seq<Seq<char>>,
    seen0: Set<Seq<char>>,
    j: int,
    k: int,
)
    requires
        0 <= j <= k <= names.len(),
    ensures
        synonym_results(tools, names, seen0, j).is_prefix_of(synonym_results(tools, names, seen0, k)),
    decreases k,
{
    if j < k {
        lemma_synonym_results_grow(tools, names, seen0, j, k - 1);
    }
}

/// Synonym lists are only appended to: when every list under the first table is a prefix of
/// the list under the same key in the second, whatever a search found through the exact name
/// or a synonym with the first table, it still returns first and in the same order.
pub proof fn lemma_synonyms_extend_search(
    tools: Seq<(Seq<char>, ToolSearchResult)>,
    before: Seq<(Seq<char>, Seq<Seq<char>>)>,
    after: Seq<(Seq<char>, Seq<Seq<char>>)>,
    query: Seq<char>,
)
    requires
        forall|k: Seq<char>| #[trigger] assoc_list(before, k).is_prefix_of(assoc_list(after, k)),
        direct_results(tools, before, query).len() > 0,
    ensures
        search_results(tools, before, query).is_prefix_of(search_results(tools, after, query)),
{
    let nb = assoc_list(before, lowercase_of(query));
    let na = assoc_list(after, lowercase_of(query));
    assert(nb.is_prefix_of(na));
    let seen0: Set<Seq<char>> = if assoc_get(tools, query) is Some {
        set![query]
    } else {
        Set::empty()
    };
    let exact: Seq<ToolSearchResult> = match assoc_get(tools, query) {
        Some(r) => seq![r],
        None => Seq::empty(),
    };
    lemma_synonym_results_prefix_list(tools, nb, na, seen0, nb.len() as int);
    lemma_synonym_results_grow(tools, na, seen0, nb.len() as int, na.len() as int);
    let sb = synonym_results(tools, nb, seen0, nb.len() as int);
    let sa = synonym_results(tools, na, seen0, na.len() as int);
    assert(direct_results(tools, before, query) == exact + sb);
    assert(direct_results(tools, after, query) == exact + sa);
    assert((exact + sb) =~= (exact + sa).subrange(0, (exact + sb).len() as int));
}

/// Listing a well-formed registry gives one entry per registered name: the entries are
/// those of distinct names, each the one stored for its name, and every registered name
/// has its entry listed. With `register` adding one to the count exactly for a new name,
/// the list's length is the number of distinct names registered.
pub proof fn lemma_list_one_per_name(r: ToolRegistry)
    requires
        r.wf(),
    ensures
        forall|u: int, v: int| 0 <= u < v < r.tools().len() ==> r.tools()[u].0 != r.tools()[v].0,
        forall|u: int| 0 <= u < r.tools().len() ==> assoc_get(r.tools(), #[trigger] r.tools()[u].0) == Some(r.tools()[u].1),
        forall|n: Seq<char>| #[trigger] assoc_get(r.tools(), n) is Some ==> exists|u: int|
            0 <= u < r.tools().len() && #[trigger] r.tools()[u].0 == n,
{
    let tools = r.tools();
    assert forall|u: int| 0 <= u < tools.len() implies assoc_get(tools, #[trigger] tools[u].0) == Some(tools[u].1) by {
        lemma_assoc_get_at(tools, u);
    }
    assert forall|n: Seq<char>| #[trigger] assoc_get(tools, n) is Some implies exists|u: int|
        0 <= u < tools.len() && #[trigger] tools[u].0 == n by {
        if !(exists|u: int| 0 <= u < tools.len() && #[trigger] tools[u].0 == n) {
            lemma_assoc_get_absent(tools, n);
        }
    }
}

/// The category of a tool name is fixed by its prefix, tried in this order: `jenkins`,
/// `gitlab`, `docker`, then `k8s` or `kubectl` (both `k8s`); any other name is `builtin`.
pub proof fn lemma_category_by_prefix(name: Seq<char>)
    ensures
        starts_with_seq(name, "jenkins"@) ==> category_of(name) == "jenkins"@,
        !starts_with_seq(name, "jenkins"@) && starts_with_seq(name, "gitlab"@) ==> category_of(name) == "gitlab"@,
        !starts_with_seq(name, "jenkins"@) && !starts_with_seq(name, "gitlab"@) && starts_with_seq(name, "docker"@)
            ==> category_of(name) == "docker"@,
        !starts_with_seq(name, "jenkins"@) && !starts_with_seq(name, "gitlab"@) && !starts_with_seq(name, "docker"@)
            && (starts_with_seq(name, "k8s"@) || starts_with_seq(name, "kubectl"@)) ==> category_of(name) == "k8s"@,
        !starts_with_seq(name, "jenkins"@) && !starts_with_seq(name, "gitlab"@) && !starts_with_seq(name, "docker"@)
            && !starts_with_seq(name, "k8s"@) && !starts_with_seq(name, "kubectl"@) ==> category_of(name) == "builtin"@,
{
}

/// A registered tool whose name starts with `jenkins` is listed by a category search for
/// `jenkins`; likewise `gitlab` and `docker`, and `k8s` for names starting with `k8s` or
/// `kubectl`.
pub proof fn lemma_prefix_tool_in_category(r: ToolRegistry, name: Seq<char>)
    requires
        r.wf(),
        assoc_get(r.tools(), name) is Some,
    ensures
        ({
            let res = assoc_get(r.tools(), name)->0;
            let listed = |c: Seq<char>| category_results(
                r.tools(),
                assoc_list(r.categories(), c),
                assoc_list(r.categories(), c).len() as int,
            ).contains(res);
            &&& starts_with_seq(name, "jenkins"@) ==> listed("jenkins"@)
            &&& !starts_with_seq(name, "jenkins"@) && starts_with_seq(name, "gitlab"@) ==> listed("gitlab"@)
            &&& !starts_with_seq(name, "jenkins"@) && !starts_with_seq(name, "gitlab"@) && starts_with_seq(name, "docker"@)
                ==> listed("docker"@)
            &&& !starts_with_seq(name, "jenkins"@) && !starts_with_seq(name, "gitlab"@) && !starts_with_seq(name, "docker"@)
                && (starts_with_seq(name, "k8s"@) || starts_with_seq(name, "kubectl"@)) ==> listed("k8s"@)
        }),
{
    let res = assoc_get(r.tools(), name)->0;
    let c = category_of(name);
    lemma_category_search(r, c, res);
    assert(assoc_get(r.tools(), name) == Some(res));
}

} // verus!
