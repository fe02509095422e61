use vstd::prelude::*;

verus! {

/// A term table: source-language term paired with its rendering in the target language.
pub type Terms = Vec<(String, String)>;

/// No two entries of the table share a term.
pub open spec fn keys_unique(s: Seq<(String, String)>) -> bool {
    forall|i: int, j: int| 0 <= i < j < s.len() ==> s[i].0@ != s[j].0@
}

/// The mapping a table stands for; a later entry for a term wins over an earlier one.
pub open spec fn terms_map(s: Seq<(String, String)>) -> Map<Seq<char>, Seq<char>>
    decreases s.len(),
{
    if s.len() == 0 {
        Map::empty()
    } else {
        terms_map(s.drop_last()).insert(s.last().0@, s.last().1@)
    }
}

/// The glossary snapshot persisted after a chapter has been analysed.
#[derive(Debug, Clone)]
pub struct ChapterGlossary {
    /// The stem of the chapter's file name.
    pub chapter_name: String,
    /// The story so far, up to and including this chapter.
    pub summary: String,
    /// Every term known after this chapter.
    pub terms: Terms,
}

/// What the model's analysis of a chapter yields.
#[derive(Debug, Clone)]
pub struct AnalysisResult {
    pub summary: String,
    pub new_terms: Terms,
}

impl ChapterGlossary {
    pub open spec fn wf(&self) -> bool {
        keys_unique(self.terms@)
    }

    pub open spec fn term_map(&self) -> Map<Seq<char>, Seq<char>> {
        terms_map(self.terms@)
    }

    /// The snapshot a run starts from when no earlier chapter is known.
    pub fn empty() -> (r: ChapterGlossary)
        ensures
            r.wf(),
            r.chapter_name@ == Seq::<char>::empty(),
            r.summary@ == Seq::<char>::empty(),
            r.terms@.len() == 0,
            r.term_map() == Map::<Seq<char>, Seq<char>>::empty(),
    {
        ChapterGlossary { chapter_name: String::new(), summary: String::new(), terms: Vec::new() }
    }

    /// Whether two snapshots hold the same name, summary and entries.
    pub open spec fn same_as(&self, o: ChapterGlossary) -> bool {
        &&& self.chapter_name@ == o.chapter_name@
        &&& self.summary@ == o.summary@
        &&& self.terms@.len() == o.terms@.len()
        &&& forall|i: int|
            0 <= i < self.terms@.len() ==> #[trigger] self.terms@[i].0@ == o.terms@[i].0@
                && self.terms@[i].1@ == o.terms@[i].1@
    }

    /// A copy of the snapshot.
    pub fn copy(&self) -> (r: ChapterGlossary)
        ensures
            r.same_as(*self),
            self.wf() ==> r.wf(),
            r.term_map() == self.term_map(),
    {
        ChapterGlossary {
            chapter_name: self.chapter_name.clone(),
            summary: self.summary.clone(),
            terms: copy_terms(&self.terms),
        }
    }

    /// The number of distinct terms in the snapshot.
    pub fn term_count(&self) -> (r: usize)
        requires
            self.wf(),
        ensures
            r == self.term_map().len(),
    {
        proof {
            lemma_unique_len(self.terms@);
        }
        self.terms.len()
    }
}

proof fn lemma_terms_map_domain(s: Seq<(String, String)>, k: Seq<char>)
    ensures
        terms_map(s).contains_key(k) <==> exists|i: int| 0 <= i < s.len() && s[i].0@ == k,
    decreases s.len(),
{
    if s.len() > 0 {
        lemma_terms_map_domain(s.drop_last(), k);
        if terms_map(s).contains_key(k) && k != s.last().0@ {
            let i = choose|i: int| 0 <= i < s.len() - 1 && s.drop_last()[i].0@ == k;
            assert(s[i].0@ == k);
        }
        if exists|i: int| 0 <= i < s.len() && s[i].0@ == k {
            let i = choose|i: int| 0 <= i < s.len() && s[i].0@ == k;
            if i < s.len() - 1 {
                assert(s.drop_last()[i].0@ == k);
            }
        }
    }
}

proof fn lemma_terms_map_value(s: Seq<(String, String)>, i: int)
    requires
        keys_unique(s),
        0 <= i < s.len(),
    ensures
        terms_map(s).contains_key(s[i].0@),
        terms_map(s)[s[i].0@] == s[i].1@,
    decreases s.len(),
{
    if i < s.len() - 1 {
        lemma_terms_map_value(s.drop_last(), i);
    }
}

proof fn lemma_unique_len(s: Seq<(String, String)>)
    requires
        keys_unique(s),
    ensures
        terms_map(s).len() == s.len(),
        terms_map(s).dom().finite(),
    decreases s.len(),
{
    if s.len() > 0 {
        lemma_unique_len(s.drop_last());
        lemma_terms_map_domain(s.drop_last(), s.last().0@);
    }
}

proof fn lemma_terms_map_update(s: Seq<(String, String)>, j: int, e: (String, String))
    requires
        keys_unique(s),
        0 <= j < s.len(),
        s[j].0@ == e.0@,
    ensures
        keys_unique(s.update(j, e)),
        terms_map(s.update(j, e)) == terms_map(s).insert(e.0@, e.1@),
{
    let t = s.update(j, e);
    assert(keys_unique(t)) by {
        assert forall|a: int, b: int| 0 <= a < b < t.len() implies t[a].0@ != t[b].0@ by {
            assert(s[a].0@ != s[b].0@);
        }
    }
    assert forall|k: Seq<char>| #[trigger]
        terms_map(t).contains_key(k) == terms_map(s).insert(e.0@, e.1@).contains_key(k) by {
        lemma_terms_map_domain(s, k);
        lemma_terms_map_domain(t, k);
        if terms_map(s).contains_key(k) {
            let i = choose|i: int| 0 <= i < s.len() && s[i].0@ == k;
            assert(t[i].0@ == k);
        }
        if terms_map(t).contains_key(k) {
            let i = choose|i: int| 0 <= i < t.len() && t[i].0@ == k;
            assert(s[i].0@ == k);
        }
    }
    assert forall|k: Seq<char>| #[trigger]
        terms_map(t).contains_key(k) implies terms_map(t)[k] == terms_map(s).insert(
        e.0@,
        e.1@,
    )[k] by {
        lemma_terms_map_domain(t, k);
        let i = choose|i: int| 0 <= i < t.len() && t[i].0@ == k;
        lemma_terms_map_value(t, i);
        if i != j {
            lemma_terms_map_value(s, i);
        }
    }
    assert(terms_map(t) =~= terms_map(s).insert(e.0@, e.1@));
}

/// Looks up the position of `key` in a table.
fn find_term(terms: &Terms, key: &String) -> (r: Option<usize>)
    ensures
        r matches Some(j) ==> j < terms@.len() && terms@[j as int].0@ == key@,
        r is None ==> forall|j: int| 0 <= j < terms@.len() ==> terms@[j].0@ != key@,
{
    let mut i: usize = 0;
    while i < terms.len()
        invariant
            i <= terms@.len(),
            forall|j: int| 0 <= j < i ==> terms@[j].0@ != key@,
        decreases terms@.len() - i,
    {
        if terms[i].0 == *key {
            return Some(i);
        }
        i = i + 1;
    }
    None
}

/// A copy of a table, entry by entry.
pub fn copy_terms(terms: &Terms) -> (r: Terms)
    ensures
        forall|i: int| 0 <= i < r@.len() ==> r@[i].0@ == terms@[i].0@ && r@[i].1@ == terms@[i].1@,
        r@.len() == terms@.len(),
        keys_unique(terms@) ==> keys_unique(r@),
        terms_map(r@) == terms_map(terms@),
{
    let mut r: Terms = Vec::new();
    let mut i: usize = 0;
    while i < terms.len()
        invariant
            i <= terms@.len(),
            r@.len() == i,
            forall|j: int| 0 <= j < i ==> r@[j].0@ == terms@[j].0@ && r@[j].1@ == terms@[j].1@,
            terms_map(r@) == terms_map(terms@.subrange(0, i as int)),
        decreases terms@.len() - i,
    {
        let entry = (terms[i].0.clone(), terms[i].1.clone());
        let ghost before = r@;
        r.push(entry);
        assert(r@.drop_last() =~= before);
        assert(terms@.subrange(0, i + 1).drop_last() =~= terms@.subrange(0, i as int));
        assert(terms_map(r@) == terms_map(r@.drop_last()).insert(
            terms@[i as int].0@,
            terms@[i as int].1@,
        ));
        assert(terms_map(terms@.subrange(0, i + 1)) == terms_map(
            terms@.subrange(0, i as int),
        ).insert(terms@[i as int].0@, terms@[i as int].1@));
        i = i + 1;
    }
    assert(terms@.subrange(0, i as int) =~= terms@);
    r
}

/// Merges newly found terms into a prior table: every prior term stays unless a new entry
/// for the same term replaces it, and every new term is added; where the new table names
/// a term twice, its later entry wins.
pub fn merge_terms(prior: &Terms, new_terms: &Terms) -> (r: Terms)
    requires
        keys_unique(prior@),
    ensures
        keys_unique(r@),
        terms_map(r@) == terms_map(prior@).union_prefer_right(terms_map(new_terms@)),
        forall|k: Seq<char>|
            #![trigger terms_map(r@).contains_key(k)]
            terms_map(prior@).contains_key(k) && !terms_map(new_terms@).contains_key(k) ==> (
            terms_map(r@).contains_key(k) && terms_map(r@)[k] == terms_map(prior@)[k]),
        forall|k: Seq<char>|
            #![trigger terms_map(r@).contains_key(k)]
            terms_map(new_terms@).contains_key(k) ==> (terms_map(r@).contains_key(k)
                && terms_map(r@)[k] == terms_map(new_terms@)[k]),
        forall|k: Seq<char>|
            #![trigger terms_map(r@).contains_key(k)]
            terms_map(r@).contains_key(k) ==> (terms_map(prior@).contains_key(k)
                || terms_map(new_terms@).contains_key(k)),
{
    let mut r = copy_terms(prior);
    let mut i: usize = 0;
    assert(terms_map(prior@).union_prefer_right(terms_map(new_terms@.subrange(0, 0)))
        =~= terms_map(prior@));
    while i < new_terms.len()
        invariant
            i <= new_terms@.len(),
            keys_unique(r@),
            terms_map(r@) == terms_map(prior@).union_prefer_right(
                terms_map(new_terms@.subrange(0, i as int)),
            ),
        decreases new_terms@.len() - i,
    {
        let entry = (new_terms[i].0.clone(), new_terms[i].1.clone());
        let ghost before = r@;
        assert(new_terms@.subrange(0, i + 1).drop_last() =~= new_terms@.subrange(0, i as int));
        match find_term(&r, &entry.0) {
            Some(j) => {
                proof {
                    lemma_terms_map_update(before, j as int, entry);
                }
                r.set(j, entry);
            },
            None => {
                r.push(entry);
                assert(r@.drop_last() =~= before);
            },
        }
        assert(terms_map(r@) =~= terms_map(prior@).union_prefer_right(
            terms_map(new_terms@.subrange(0, i + 1)),
        ));
        i = i + 1;
    }
    assert(new_terms@.subrange(0, i as int) =~= new_terms@);
    r
}

/// The snapshot of a chapter: the analysis' summary, and the prior terms merged with the
/// analysis' new terms (a new entry for a known term replaces it).
pub fn merge_analysis(
    prior: &ChapterGlossary,
    chapter_name: &String,
    analysis: &AnalysisResult,
) -> (r: ChapterGlossary)
    requires
        prior.wf(),
    ensures
        r.wf(),
        r.chapter_name@ == chapter_name@,
        r.summary@ == analysis.summary@,
        r.term_map() == prior.term_map().union_prefer_right(terms_map(analysis.new_terms@)),
{
    ChapterGlossary {
        chapter_name: chapter_name.clone(),
        summary: analysis.summary.clone(),
        terms: merge_terms(&prior.terms, &analysis.new_terms),
    }
}

/// The name of the file that holds a chapter's snapshot.
pub fn glossary_file_name(chapter_name: &str) -> (r: String)
    ensures
        r@ == chapter_name@ + seq!['.', 'j', 's', 'o', 'n'],
{
    let mut r = String::from_str(chapter_name);
    r.append(".json");
    proof {
        reveal_strlit(".json");
    }
    r
}

} // verus!
