use vstd::prelude::*;
use crate::text::{to_chars, from_chars, trim, trim_chars, contains, contains_exec, find_from,
    extend_chars, extend_str, seqs, first_occurrence_from, slice_range};
use crate::split::{lines, lines_of, words, word_count};
use crate::strops::{ascii_lower, to_ascii_lowercase};
use crate::num::{is_digit, dec, idec, push_dec, push_idec};
use crate::vtt_parser::{first_index, lemma_first_index};

verus! {

// ---------------------------------------------------------------------
// Abstracts
// ---------------------------------------------------------------------

/// The label that opens a summary's abstract.
pub open spec fn abstract_marker() -> Seq<char> {
    "**abstract**:"@
}

/// The first line (from index `k` on) that carries the abstract label, in
/// any letter case.
pub open spec fn marker_line_from(ls: Seq<Seq<char>>, k: int) -> Option<int>
    decreases ls.len() - k,
{
    if k >= ls.len() || k < 0 {
        None
    } else if contains(ascii_lower(ls[k]), abstract_marker()) {
        Some(k)
    } else {
        marker_line_from(ls, k + 1)
    }
}

/// A line that starts a list of timestamped points: it begins with `*` and
/// holds a digit and a colon.
pub open spec fn is_point_line(l: Seq<char>) -> bool {
    &&& l.len() > 0
    &&& l[0] == '*'
    &&& exists|k: int| 0 <= k < l.len() && #[trigger] is_digit(l[k])
    &&& contains(l, ":"@)
}

/// The lines up to the first point line, each followed by a space.
pub open spec fn abstract_tail(ls: Seq<Seq<char>>) -> Seq<char>
    decreases ls.len(),
{
    if ls.len() == 0 || is_point_line(ls[0]) {
        Seq::empty()
    } else {
        ls[0] + " "@ + abstract_tail(ls.drop_first())
    }
}

/// What the labelled line contributes: its text after the label, trimmed and
/// followed by a space, when there is any.
pub open spec fn marker_head(l: Seq<char>, p: int) -> Seq<char> {
    if p < l.len() {
        trim(l.subrange(p, l.len() as int)) + " "@
    } else {
        Seq::empty()
    }
}

/// The abstract of a summary: the rest of the labelled line and the lines
/// after it up to the first timestamped point, trimmed.
pub open spec fn abstract_of(summary: Seq<char>) -> Option<Seq<char>> {
    let ls = lines(summary);
    match marker_line_from(ls, 0) {
        None => None,
        Some(i) => {
            let l = ls[i];
            let p = first_index(ascii_lower(l), abstract_marker()) + abstract_marker().len();
            Some(trim(marker_head(l, p) + abstract_tail(ls.skip(i + 1))))
        },
    }
}

fn is_point_line_exec(l: &[char]) -> (r: bool)
    ensures
        r == is_point_line(l@),
{
    if l.len() == 0 || l[0] != '*' {
        return false;
    }
    let mut k: usize = 0;
    let mut digit = false;
    while k < l.len()
        invariant
            k <= l@.len(),
            !digit ==> forall|m: int| 0 <= m < k ==> !is_digit(#[trigger] l@[m]),
            digit ==> exists|m: int| 0 <= m < l@.len() && #[trigger] is_digit(l@[m]),
        decreases l@.len() - k,
    {
        if '0' <= l[k] && l[k] <= '9' {
            assert(is_digit(l@[k as int]));
            digit = true;
        }
        k = k + 1;
    }
    digit && crate::text::str_contains(l, ":")
}

fn tail_text(ls: &Vec<Vec<char>>, from: usize) -> (r: Vec<char>)
    requires
        from <= ls@.len(),
    ensures
        r@ == abstract_tail(seqs(ls@).skip(from as int)),
{
    let ghost sl = seqs(ls@);
    proof {
        reveal_strlit(" ");
    }
    let mut text: Vec<char> = Vec::new();
    let mut j: usize = from;
    while j < ls.len() && !is_point_line_exec(ls[j].as_slice())
        invariant
            from <= j <= ls@.len(),
            sl == seqs(ls@),
            text@ + abstract_tail(sl.skip(j as int)) == abstract_tail(sl.skip(from as int)),
        decreases ls@.len() - j,
    {
        let ghost rest = sl.skip(j as int);
        proof {
            reveal_strlit(" ");
        }
        assert(rest[0] == ls@[j as int]@);
        assert(!is_point_line(rest[0]));
        assert(rest.drop_first() == sl.skip(j + 1));
        assert(abstract_tail(rest) == rest[0] + " "@ + abstract_tail(rest.drop_first()));
        extend_chars(&mut text, ls[j].as_slice());
        text.push(' ');
        assert(text@ + abstract_tail(sl.skip(j + 1)) =~= abstract_tail(sl.skip(from as int)));
        j = j + 1;
    }
    proof {
        let rest = sl.skip(j as int);
        if j < ls@.len() {
            assert(rest[0] == ls@[j as int]@);
        }
        assert(abstract_tail(rest) == Seq::<char>::empty());
        assert(text@ + Seq::<char>::empty() =~= text@);
    }
    text
}

/// Extracts the abstract block of a summary: the text after the
/// `**Abstract**:` label (in any letter case) up to the first timestamped
/// point; `None` without the label.
pub fn extract_abstract_block(summary: &str) -> (r: Option<String>)
    ensures
        r matches Some(s) ==> abstract_of(summary@) == Some(s@),
        r is None ==> abstract_of(summary@) is None,
{
    let v = to_chars(summary);
    let ls = lines_of(v.as_slice());
    let ghost sl = seqs(ls@);
    let marker = to_chars("**abstract**:");
    proof {
        reveal_strlit("**abstract**:");
        reveal_strlit(" ");
    }
    assert(marker@.len() == 13);
    let mut i: usize = 0;
    while i < ls.len()
        invariant
            i <= ls@.len(),
            sl == seqs(ls@),
            sl == lines(summary@),
            marker@ == abstract_marker(),
            marker@.len() == 13,
            marker_line_from(sl, 0) == marker_line_from(sl, i as int),
        decreases ls@.len() - i,
    {
        assert(sl[i as int] == ls@[i as int]@);
        let low = to_ascii_lowercase(ls[i].as_slice());
        match find_from(low.as_slice(), marker.as_slice(), 0) {
            Some(pos) => {
                proof {
                    lemma_first_index(low@, marker@, pos as int);
                    assert(crate::text::occurs_at(low@, marker@, pos as int));
                }
                assert(contains(low@, marker@));
                assert(marker_line_from(sl, i as int) == Some(i as int));
                let line = ls[i].as_slice();
                let n = low.len();
                assert(low@.len() == line@.len());
                assert(pos + 13 <= n);
                let p = pos + 13;
                let mut text: Vec<char> = Vec::new();
                if p < line.len() {
                    let rest = slice_range(line, p, line.len());
                    let t = trim_chars(rest.as_slice());
                    extend_chars(&mut text, t.as_slice());
                    text.push(' ');
                    assert(rest@ == line@.subrange(p as int, line@.len() as int));
                    proof {
                        reveal_strlit(" ");
                    }
                    assert(" "@ =~= seq![' ']);
                }
                assert(text@ =~= marker_head(line@, p as int));
                let tail = tail_text(&ls, i + 1);
                let ghost head = text@;
                extend_chars(&mut text, tail.as_slice());
                let out = trim_chars(text.as_slice());
                assert(sl[i as int] == line@);
                assert(abstract_of(summary@) == Some(trim(head + tail@)));
                return Some(from_chars(out.as_slice()));
            },
            None => {
                assert(!contains(low@, marker@));
            },
        }
        i = i + 1;
    }
    None
}

// ---------------------------------------------------------------------
// Cluster prompts
// ---------------------------------------------------------------------

pub const CLUSTER_PROMPT_OPENING: &'static str = "You are analyzing a cluster of transcript summaries with cluster ID ";

pub const CLUSTER_PROMPT_SAMPLES: &'static str = ".\n\nHere are sample abstracts from this cluster:\n\n";

pub const CLUSTER_PROMPT_INSTRUCTIONS: &'static str = "\n\nBased on these abstracts, provide a concise, descriptive title for this cluster that captures the main theme or topic. The title should be:\n- Descriptive and informative\n- No more than 60 characters\n- In English\n- Focused on the content domain or subject matter\n\nPlease respond with a JSON array containing the cluster ID and title:\n[{\"id\": ";

pub const CLUSTER_PROMPT_CLOSING: &'static str = ", \"title\": \"Your title here\"}]";

/// The first ten abstracts, numbered from 1, one per line.
pub open spec fn numbered_abstracts(abstracts: Seq<Seq<char>>, n: nat) -> Seq<char>
    decreases n,
{
    if n == 0 {
        Seq::empty()
    } else {
        numbered_abstracts(abstracts, (n - 1) as nat) + dec(n) + ". "@ + abstracts[n - 1] + "\n"@
    }
}

/// The prompt asking for a cluster's title from up to ten of its abstracts.
pub open spec fn cluster_prompt(cluster_id: i32, abstracts: Seq<Seq<char>>) -> Seq<char> {
    let n: nat = if abstracts.len() > 10 { 10 } else { abstracts.len() };
    CLUSTER_PROMPT_OPENING@ + idec(cluster_id as int) + CLUSTER_PROMPT_SAMPLES@ + numbered_abstracts(
        abstracts,
        n,
    ) + CLUSTER_PROMPT_INSTRUCTIONS@ + idec(cluster_id as int) + CLUSTER_PROMPT_CLOSING@
}

pub fn create_cluster_prompt(cluster_id: i32, abstracts: &[String]) -> (r: String)
    ensures
        r@ == cluster_prompt(cluster_id, abstracts@.map_values(|s: String| s@)),
{
    let ghost av = abstracts@.map_values(|s: String| s@);
    let n: usize = if abstracts.len() > 10 {
        10
    } else {
        abstracts.len()
    };
    let mut body: Vec<char> = Vec::new();
    let mut i: usize = 0;
    while i < n
        invariant
            i <= n <= abstracts@.len(),
            n <= 10,
            av == abstracts@.map_values(|s: String| s@),
            body@ == numbered_abstracts(av, i as nat),
        decreases n - i,
    {
        push_dec(&mut body, (i + 1) as u64);
        extend_str(&mut body, ". ");
        extend_str(&mut body, abstracts[i].as_str());
        extend_str(&mut body, "\n");
        assert(av[i as int] == abstracts@[i as int]@);
        assert(body@ =~= numbered_abstracts(av, (i + 1) as nat));
        i = i + 1;
    }
    let mut v = to_chars(CLUSTER_PROMPT_OPENING);
    push_idec(&mut v, cluster_id as i64);
    extend_str(&mut v, CLUSTER_PROMPT_SAMPLES);
    extend_chars(&mut v, body.as_slice());
    extend_str(&mut v, CLUSTER_PROMPT_INSTRUCTIONS);
    push_idec(&mut v, cluster_id as i64);
    extend_str(&mut v, CLUSTER_PROMPT_CLOSING);
    assert(v@ =~= cluster_prompt(cluster_id, av));
    from_chars(v.as_slice())
}

/// Most words of prompts sent in one request.
pub const BATCH_WORD_LIMIT: usize = 20000;

/// Prompts gathered into requests in order: a prompt starts a new request
/// when adding its words to a non-empty one would pass the limit.
pub open spec fn batches_of(prompts: Seq<(i32, Seq<char>)>) -> (Seq<Seq<(i32, Seq<char>)>>, Seq<(i32, Seq<char>)>, nat)
    decreases prompts.len(),
{
    if prompts.len() == 0 {
        (seq![], seq![], 0)
    } else {
        let (done, cur, count) = batches_of(prompts.drop_last());
        let p = prompts.last();
        let w = words(p.1).len();
        if count + w > 20000 && cur.len() > 0 {
            (done.push(cur), seq![p], w)
        } else {
            (done, cur.push(p), count + w)
        }
    }
}

/// The requests for a list of prompts: the full ones, then the last one if
/// it holds anything.
pub open spec fn prompt_batches(prompts: Seq<(i32, Seq<char>)>) -> Seq<Seq<(i32, Seq<char>)>> {
    let (done, cur, _) = batches_of(prompts);
    if cur.len() > 0 {
        done.push(cur)
    } else {
        done
    }
}

pub open spec fn prompt_views(v: Seq<(i32, String)>) -> Seq<(i32, Seq<char>)> {
    v.map_values(|p: (i32, String)| (p.0, p.1@))
}

fn copy_prompt(p: &(i32, String)) -> (r: (i32, String))
    ensures
        r.0 == p.0 && r.1@ == p.1@,
{
    let v = to_chars(p.1.as_str());
    (p.0, from_chars(v.as_slice()))
}

/// Splits prompts into requests of at most 20,000 words (a single larger
/// prompt goes alone).
pub fn batch_prompts(prompts: &Vec<(i32, String)>) -> (r: Vec<Vec<(i32, String)>>)
    ensures
        r@.map_values(|b: Vec<(i32, String)>| prompt_views(b@)) == prompt_batches(
            prompt_views(prompts@),
        ),
{
    let ghost pv = prompt_views(prompts@);
    let mut done: Vec<Vec<(i32, String)>> = Vec::new();
    let mut cur: Vec<(i32, String)> = Vec::new();
    let mut count: usize = 0;
    let mut i: usize = 0;
    assert(pv.take(0) =~= Seq::<(i32, Seq<char>)>::empty());
    assert(done@.map_values(|b: Vec<(i32, String)>| prompt_views(b@)) =~= Seq::<
        Seq<(i32, Seq<char>)>,
    >::empty());
    assert(prompt_views(cur@) =~= Seq::<(i32, Seq<char>)>::empty());
    while i < prompts.len()
        invariant
            i <= prompts@.len(),
            pv == prompt_views(prompts@),
            count <= 20000 || cur@.len() == 1,
            batches_of(pv.take(i as int)) == (
                done@.map_values(|b: Vec<(i32, String)>| prompt_views(b@)),
                prompt_views(cur@),
                count as nat,
            ),
        decreases prompts@.len() - i,
    {
        let ghost t = pv.take(i + 1);
        assert(t.drop_last() == pv.take(i as int));
        assert(t.last() == (prompts@[i as int].0, prompts@[i as int].1@));
        let pc = to_chars(prompts[i].1.as_str());
        let w = word_count(pc.as_slice());
        let ghost dv = done@.map_values(|b: Vec<(i32, String)>| prompt_views(b@));
        let ghost cv = prompt_views(cur@);
        let over = if count > 20000 {
            true
        } else {
            w > 20000 - count
        };
        if over && cur.len() > 0 {
            let full = cur;
            done.push(full);
            assert(done@.map_values(|b: Vec<(i32, String)>| prompt_views(b@)) =~= dv.push(cv));
            cur = Vec::new();
            cur.push(copy_prompt(&prompts[i]));
            assert(prompt_views(cur@) =~= seq![(prompts@[i as int].0, prompts@[i as int].1@)]);
            count = w;
        } else {
            cur.push(copy_prompt(&prompts[i]));
            assert(prompt_views(cur@) =~= cv.push((prompts@[i as int].0, prompts@[i as int].1@)));
            count = count + w;
        }
        i = i + 1;
    }
    assert(pv.take(prompts@.len() as int) == pv);
    let ghost dv = done@.map_values(|b: Vec<(i32, String)>| prompt_views(b@));
    if cur.len() > 0 {
        let ghost cv = prompt_views(cur@);
        done.push(cur);
        assert(done@.map_values(|b: Vec<(i32, String)>| prompt_views(b@)) =~= dv.push(cv));
    }
    done
}

/// The prompts of one request joined, each followed by a `---` rule.
pub open spec fn joined_prompts(batch: Seq<(i32, Seq<char>)>) -> Seq<char>
    decreases batch.len(),
{
    if batch.len() == 0 {
        Seq::empty()
    } else {
        joined_prompts(batch.drop_last()) + batch.last().1 + "\n\n---\n\n"@
    }
}

pub fn combine_batch_prompts(batch: &Vec<(i32, String)>) -> (r: String)
    ensures
        r@ == joined_prompts(prompt_views(batch@)),
{
    let ghost bv = prompt_views(batch@);
    let mut v: Vec<char> = Vec::new();
    let mut i: usize = 0;
    assert(bv.take(0) =~= Seq::<(i32, Seq<char>)>::empty());
    while i < batch.len()
        invariant
            i <= batch@.len(),
            bv == prompt_views(batch@),
            v@ == joined_prompts(bv.take(i as int)),
        decreases batch@.len() - i,
    {
        let ghost t = bv.take(i + 1);
        assert(t.drop_last() == bv.take(i as int));
        assert(t.last() == (batch@[i as int].0, batch@[i as int].1@));
        extend_str(&mut v, batch[i].1.as_str());
        extend_str(&mut v, "\n\n---\n\n");
        assert(v@ =~= joined_prompts(t));
        i = i + 1;
    }
    assert(bv.take(batch@.len() as int) == bv);
    from_chars(v.as_slice())
}

/// Words in a list of prompts.
pub open spec fn total_words(b: Seq<(i32, Seq<char>)>) -> nat
    decreases b.len(),
{
    if b.len() == 0 {
        0
    } else {
        total_words(b.drop_last()) + words(b.last().1).len()
    }
}

/// The prompts of a list of requests, in order.
pub open spec fn flatten_batches(bs: Seq<Seq<(i32, Seq<char>)>>) -> Seq<(i32, Seq<char>)>
    decreases bs.len(),
{
    if bs.len() == 0 {
        seq![]
    } else {
        flatten_batches(bs.drop_last()) + bs.last()
    }
}

proof fn lemma_batches_of(prompts: Seq<(i32, Seq<char>)>)
    ensures
        ({
            let (done, cur, count) = batches_of(prompts);
            &&& flatten_batches(done) + cur == prompts
            &&& count == total_words(cur)
            &&& cur.len() == 1 || count <= 20000
            &&& prompts.len() > 0 ==> cur.len() > 0
            &&& forall|i: int|
                0 <= i < done.len() ==> (#[trigger] done[i]).len() > 0 && (done[i].len() == 1
                    || total_words(done[i]) <= 20000)
        }),
    decreases prompts.len(),
{
    if prompts.len() > 0 {
        let p = prompts.drop_last();
        lemma_batches_of(p);
        let (done, cur, count) = batches_of(p);
        let x = prompts.last();
        let w = words(x.1).len();
        assert(prompts == p.push(x));
        if count + w > 20000 && cur.len() > 0 {
            let d2 = done.push(cur);
            assert(d2.drop_last() == done);
            assert(flatten_batches(d2) == flatten_batches(done) + cur);
            assert(seq![x].drop_last() =~= Seq::<(i32, Seq<char>)>::empty());
            assert(seq![x].last() == x);
            assert(total_words(Seq::<(i32, Seq<char>)>::empty()) == 0);
            assert(total_words(seq![x]) == w);
            assert(flatten_batches(d2) + seq![x] =~= flatten_batches(done) + cur + seq![x]);
            assert forall|i: int| 0 <= i < d2.len() implies (#[trigger] d2[i]).len() > 0 && (
            d2[i].len() == 1 || total_words(d2[i]) <= 20000) by {
                if i < done.len() {
                    assert(d2[i] == done[i]);
                }
            }
        } else {
            let c2 = cur.push(x);
            assert(c2.drop_last() == cur);
            assert(flatten_batches(done) + c2 =~= flatten_batches(done) + cur + seq![x]);
        }
    }
}

/// The requests hold every prompt once, in order; none is empty; and a
/// request of several prompts stays within 20,000 words.
pub proof fn lemma_prompt_batches(prompts: Seq<(i32, Seq<char>)>)
    ensures
        flatten_batches(prompt_batches(prompts)) == prompts,
        forall|i: int|
            0 <= i < prompt_batches(prompts).len() ==> (#[trigger] prompt_batches(prompts)[i]).len()
                > 0 && (prompt_batches(prompts)[i].len() == 1 || total_words(
                prompt_batches(prompts)[i],
            ) <= 20000),
{
    lemma_batches_of(prompts);
    let (done, cur, count) = batches_of(prompts);
    if cur.len() > 0 {
        let d2 = done.push(cur);
        assert(d2.drop_last() == done);
        assert forall|i: int| 0 <= i < d2.len() implies (#[trigger] d2[i]).len() > 0 && (
        d2[i].len() == 1 || total_words(d2[i]) <= 20000) by {
            if i < done.len() {
                assert(d2[i] == done[i]);
            }
        }
    } else {
        assert(flatten_batches(done) + cur =~= flatten_batches(done));
    }
}


// ---------------------------------------------------------------------
// Abstracts by cluster
// ---------------------------------------------------------------------

/// The first position of a label.
pub open spec fn label_position(labels: Seq<i32>, label: i32) -> Option<int>
    decreases labels.len(),
{
    if labels.len() == 0 {
        None
    } else {
        match label_position(labels.drop_last(), label) {
            Some(i) => Some(i),
            None => if labels.last() == label {
                Some(labels.len() - 1)
            } else {
                None
            },
        }
    }
}

/// The clusters that have abstracts, in the order their first abstract
/// appears, and each cluster's abstracts in the order of its points; a point
/// whose summary has no abstract block adds nothing.
pub open spec fn cluster_groups(points: Seq<(Seq<char>, i32)>) -> (Seq<i32>, Seq<Seq<Seq<char>>>)
    decreases points.len(),
{
    if points.len() == 0 {
        (seq![], seq![])
    } else {
        let prev = cluster_groups(points.drop_last());
        let p = points.last();
        match abstract_of(p.0) {
            None => prev,
            Some(a) => match label_position(prev.0, p.1) {
                Some(k) => (prev.0, prev.1.update(k, prev.1[k].push(a))),
                None => (prev.0.push(p.1), prev.1.push(seq![a])),
            },
        }
    }
}

proof fn lemma_label_position(labels: Seq<i32>, label: i32)
    ensures
        label_position(labels, label) matches Some(i) ==> 0 <= i < labels.len() && labels[i] == label,
        label_position(labels, label) is None ==> forall|k: int|
            0 <= k < labels.len() ==> labels[k] != label,
    decreases labels.len(),
{
    if labels.len() > 0 {
        lemma_label_position(labels.drop_last(), label);
        assert forall|k: int| 0 <= k < labels.len() - 1 implies labels.drop_last()[k] == labels[k] by {}
    }
}

proof fn lemma_label_position_prefix(labels: Seq<i32>, label: i32, n: int)
    requires
        0 <= n <= labels.len(),
        label_position(labels.take(n), label) is Some,
    ensures
        label_position(labels, label) == label_position(labels.take(n), label),
    decreases labels.len() - n,
{
    if n < labels.len() {
        assert(labels.take(n + 1).drop_last() == labels.take(n));
        lemma_label_position_prefix(labels, label, n + 1);
    } else {
        assert(labels.take(n) == labels);
    }
}

fn find_label(labels: &Vec<i32>, label: i32) -> (r: Option<usize>)
    ensures
        match r {
            Some(k) => k < labels@.len() && label_position(labels@, label) == Some(k as int),
            None => label_position(labels@, label) is None,
        },
{
    let mut k: usize = 0;
    assert(labels@.take(0) =~= Seq::<i32>::empty());
    while k < labels.len()
        invariant
            k <= labels@.len(),
            label_position(labels@.take(k as int), label) is None,
        decreases labels@.len() - k,
    {
        assert(labels@.take(k + 1).drop_last() == labels@.take(k as int));
        if labels[k] == label {
            proof {
                lemma_label_position_prefix(labels@, label, k + 1);
            }
            return Some(k);
        }
        k = k + 1;
    }
    assert(labels@.take(labels@.len() as int) == labels@);
    None
}

/// Each cluster is listed once, with one list of abstracts.
pub proof fn lemma_cluster_groups_distinct(points: Seq<(Seq<char>, i32)>)
    ensures
        cluster_groups(points).0.len() == cluster_groups(points).1.len(),
        forall|i: int, j: int|
            0 <= i < j < cluster_groups(points).0.len() ==> cluster_groups(points).0[i]
                != cluster_groups(points).0[j],
    decreases points.len(),
{
    if points.len() > 0 {
        lemma_cluster_groups_distinct(points.drop_last());
        let prev = cluster_groups(points.drop_last());
        lemma_label_position(prev.0, points.last().1);
    }
}

pub open spec fn point_views(summaries: Seq<String>, labels: Seq<i32>) -> Seq<(Seq<char>, i32)> {
    let n = if summaries.len() < labels.len() {
        summaries.len()
    } else {
        labels.len()
    };
    Seq::new(n, |i: int| (summaries[i]@, labels[i]))
}

pub open spec fn group_views(members: Seq<Vec<String>>) -> Seq<Seq<Seq<char>>> {
    members.map_values(|g: Vec<String>| g@.map_values(|s: String| s@))
}

/// Gathers the abstracts of each cluster from the points' summaries and
/// cluster labels (paired in order, as far as both go).
pub fn group_abstracts(summaries: &Vec<String>, labels: &Vec<i32>) -> (r: (Vec<i32>, Vec<Vec<String>>))
    ensures
        (r.0@, group_views(r.1@)) == cluster_groups(point_views(summaries@, labels@)),
{
    let ghost pts = point_views(summaries@, labels@);
    let n: usize = if summaries.len() < labels.len() {
        summaries.len()
    } else {
        labels.len()
    };
    let mut group_labels: Vec<i32> = Vec::new();
    let mut members: Vec<Vec<String>> = Vec::new();
    let mut i: usize = 0;
    assert(pts.take(0) =~= Seq::<(Seq<char>, i32)>::empty());
    while i < n
        invariant
            i <= n,
            n == pts.len(),
            n <= summaries@.len(),
            n <= labels@.len(),
            pts == point_views(summaries@, labels@),
            group_labels@.len() == members@.len(),
            (group_labels@, group_views(members@)) == cluster_groups(pts.take(i as int)),
        decreases n - i,
    {
        let ghost t = pts.take(i + 1);
        assert(t.drop_last() == pts.take(i as int));
        assert(t.last() == (summaries@[i as int]@, labels@[i as int]));
        let ghost before = group_views(members@);
        match extract_abstract_block(summaries[i].as_str()) {
            None => {},
            Some(a) => {
                let ghost av = a@;
                proof {
                    lemma_label_position(group_labels@, labels@[i as int]);
                }
                match find_label(&group_labels, labels[i]) {
                    Some(k) => {
                        let ghost old_members = members@;
                        let mut group: Vec<String> = Vec::new();
                        std::mem::swap(&mut group, &mut members[k]);
                        let ghost gv = group@;
                        group.push(a);
                        members.set(k, group);
                        assert(group_views(members@) =~= before.update(
                            k as int,
                            before[k as int].push(av),
                        )) by {
                            assert forall|j: int| 0 <= j < members@.len() implies #[trigger] group_views(members@)[j]
                                == before.update(k as int, before[k as int].push(av))[j] by {
                                if j == k as int {
                                    assert(members@[j]@ =~= gv.push(members@[j]@.last()));
                                    assert(group_views(members@)[j] =~= before[j].push(av));
                                }
                            }
                        }
                    },
                    None => {
                        group_labels.push(labels[i]);
                        let mut group: Vec<String> = Vec::new();
                        group.push(a);
                        assert(group@.map_values(|s: String| s@) =~= seq![av]);
                        members.push(group);
                        assert(group_views(members@) =~= before.push(seq![av]));
                    },
                }
            },
        }
        i = i + 1;
    }
    assert(pts.take(n as int) == pts);
    (group_labels, members)
}

} // verus!
