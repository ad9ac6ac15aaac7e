use vstd::prelude::*;
use crate::text::{to_chars, from_chars, trim, trim_chars, is_blank, extend_str, extend_chars,
    str_contains, seqs};
use crate::split::split_char;
use crate::url_validator::{url_items, classify_source, SourceView, ParsedSource, split_urls,
    parse_source_url};

verus! {

// ---------------------------------------------------------------------
// Submissions
// ---------------------------------------------------------------------

/// Shown when the chosen model is not configured.
pub const INVALID_MODEL_HTML: &'static str = "<p>Invalid model selected.</p>";

/// Shown when the chosen model has used its daily quota.
pub const RATE_LIMITED_HTML: &'static str = "<p>Rate limit exceeded for this model. Please try again later.</p>";

/// Shown when a submission has neither a link nor pasted content.
pub const EMPTY_SUBMISSION_HTML: &'static str = "<p>Error: Please provide either a YouTube URL, Hacker News URL, or paste content.</p>";

/// The message for a link that is neither a video nor a story.
pub open spec fn unknown_link_html(item: Seq<char>) -> Seq<char> {
    "<p>Error: The provided value '"@ + item
        + "' is neither a valid YouTube URL, video ID, nor a Hacker News URL.</p>"@
}

/// The canonical links of a submission's items up to the first one that is
/// neither a video nor a story, and that item if there is one.
pub open spec fn normalized_links(items: Seq<Seq<char>>) -> (Seq<Seq<char>>, Option<Seq<char>>)
    decreases items.len(),
{
    if items.len() == 0 {
        (seq![], None)
    } else {
        let prev = normalized_links(items.drop_last());
        if prev.1 is Some {
            prev
        } else {
            match classify_source(items.last()) {
                SourceView::YouTube(norm) => (prev.0.push(norm), None),
                SourceView::HackerNews(_, norm) => (prev.0.push(norm), None),
                SourceView::Unknown(u) => (prev.0, Some(u)),
            }
        }
    }
}

/// One item per link, the pasted content going with the first.
pub open spec fn plan_items(links: Seq<Seq<char>>, transcript: Option<Seq<char>>) -> Seq<
    (Seq<char>, Option<Seq<char>>),
>
    decreases links.len(),
{
    if links.len() == 0 {
        seq![]
    } else {
        plan_items(links.drop_last(), transcript).push(
            (links.last(), if links.len() == 1 {
                transcript
            } else {
                None
            }),
        )
    }
}

pub open spec fn is_blank_text(t: Option<Seq<char>>) -> bool {
    match t {
        Some(s) => trim(s).len() == 0,
        None => true,
    }
}

/// The items a submission is processed as: one per canonical link, the
/// pasted content going with the first; or the pasted content alone when no
/// link is given.  Refused, with the message shown, when there is neither
/// link nor content, or when a link is unknown.
pub open spec fn submission_plan(link: Seq<char>, transcript: Option<Seq<char>>) -> Result<
    Seq<(Seq<char>, Option<Seq<char>>)>,
    Seq<char>,
> {
    let url_empty = trim(link).len() == 0;
    if url_empty && is_blank_text(transcript) {
        Err(EMPTY_SUBMISSION_HTML@)
    } else {
        let links = if url_empty {
            (seq![], None)
        } else {
            normalized_links(url_items(link))
        };
        match links.1 {
            Some(u) => Err(unknown_link_html(u)),
            None => if links.0.len() == 0 {
                Ok(seq![(Seq::<char>::empty(), transcript)])
            } else {
                Ok(plan_items(links.0, transcript))
            },
        }
    }
}

pub open spec fn opt_str_view(o: Option<&str>) -> Option<Seq<char>> {
    match o {
        Some(s) => Some(s@),
        None => None,
    }
}

pub open spec fn plan_views(v: Seq<(String, Option<String>)>) -> Seq<(Seq<char>, Option<Seq<char>>)> {
    v.map_values(
        |p: (String, Option<String>)|
            (p.0@, match p.1 {
                Some(s) => Some(s@),
                None => None,
            }),
    )
}

fn copy_opt_str(o: Option<&str>) -> (r: Option<String>)
    ensures
        match r {
            Some(s) => o is Some && s@ == o->0@,
            None => o is None,
        },
{
    match o {
        Some(s) => {
            let v = to_chars(s);
            Some(from_chars(v.as_slice()))
        },
        None => None,
    }
}

/// Splits a submission into the items to process, or the message that
/// refuses it.
pub fn plan_submission(original_source_link: &str, transcript: Option<&str>) -> (r: Result<
    Vec<(String, Option<String>)>,
    String,
>)
    ensures
        match r {
            Ok(items) => submission_plan(original_source_link@, opt_str_view(transcript)) == Ok::<
                Seq<(Seq<char>, Option<Seq<char>>)>,
                Seq<char>,
            >(plan_views(items@)),
            Err(m) => submission_plan(original_source_link@, opt_str_view(transcript)) == Err::<
                Seq<(Seq<char>, Option<Seq<char>>)>,
                Seq<char>,
            >(m@),
        },
{
    let lv = to_chars(original_source_link);
    let url_empty = is_blank(lv.as_slice());
    let transcript_empty = match transcript {
        Some(t) => {
            let tv = to_chars(t);
            is_blank(tv.as_slice())
        },
        None => true,
    };
    if url_empty && transcript_empty {
        let m = to_chars(EMPTY_SUBMISSION_HTML);
        return Err(from_chars(m.as_slice()));
    }
    let mut links: Vec<String> = Vec::new();
    if !url_empty {
        let items = split_urls(original_source_link);
        let ghost iv = items@.map_values(|s: String| s@);
        let mut i: usize = 0;
        assert(iv.take(0) =~= Seq::<Seq<char>>::empty());
        assert(links@.map_values(|s: String| s@) =~= Seq::<Seq<char>>::empty());
        while i < items.len()
            invariant
                i <= items@.len(),
                iv == items@.map_values(|s: String| s@),
                iv == url_items(original_source_link@),
                trim(original_source_link@).len() > 0,
                normalized_links(iv.take(i as int)) == (links@.map_values(|s: String| s@), None::<
                    Seq<char>,
                >),
            decreases items@.len() - i,
        {
            let ghost t = iv.take(i + 1);
            assert(t.drop_last() == iv.take(i as int));
            assert(t.last() == items@[i as int]@);
            let ghost before = links@.map_values(|s: String| s@);
            match parse_source_url(items[i].as_str()) {
                ParsedSource::YouTube(norm) => {
                    links.push(norm);
                    assert(links@.map_values(|s: String| s@) =~= before.push(norm@));
                },
                ParsedSource::HackerNews(_, norm) => {
                    links.push(norm);
                    assert(links@.map_values(|s: String| s@) =~= before.push(norm@));
                },
                ParsedSource::Unknown(u) => {
                    assert(normalized_links(t) == (before, Some(u@)));
                    proof {
                        lemma_unknown_stays(iv, i as int + 1);
                    }
                    let mut m = to_chars("<p>Error: The provided value '");
                    extend_str(&mut m, u.as_str());
                    extend_str(
                        &mut m,
                        "' is neither a valid YouTube URL, video ID, nor a Hacker News URL.</p>",
                    );
                    assert(m@ =~= unknown_link_html(u@));
                    return Err(from_chars(m.as_slice()));
                },
            }
            i = i + 1;
        }
        assert(iv.take(items@.len() as int) == iv);
    } else {
        assert(links@.map_values(|s: String| s@) =~= Seq::<Seq<char>>::empty());
    }
    let ghost lvw = links@.map_values(|s: String| s@);
    let mut out: Vec<(String, Option<String>)> = Vec::new();
    if links.len() == 0 {
        let e: Vec<char> = Vec::new();
        out.push((from_chars(e.as_slice()), copy_opt_str(transcript)));
        assert(plan_views(out@) =~= seq![(Seq::<char>::empty(), opt_str_view(transcript))]);
        return Ok(out);
    }
    let mut j: usize = 0;
    assert(lvw.take(0) =~= Seq::<Seq<char>>::empty());
    assert(plan_views(out@) =~= Seq::<(Seq<char>, Option<Seq<char>>)>::empty());
    while j < links.len()
        invariant
            j <= links@.len(),
            lvw == links@.map_values(|s: String| s@),
            plan_views(out@) == plan_items(lvw.take(j as int), opt_str_view(transcript)),
        decreases links@.len() - j,
    {
        let ghost before = plan_views(out@);
        let ghost tk = lvw.take(j + 1);
        assert(tk.drop_last() == lvw.take(j as int));
        assert(tk.last() == links@[j as int]@);
        let lc = to_chars(links[j].as_str());
        let t = if j == 0 {
            copy_opt_str(transcript)
        } else {
            None
        };
        out.push((from_chars(lc.as_slice()), t));
        assert(plan_views(out@) =~= before.push(
            (links@[j as int]@, if j == 0 {
                opt_str_view(transcript)
            } else {
                None
            }),
        ));
        j = j + 1;
    }
    assert(lvw.take(links@.len() as int) == lvw);
    Ok(out)
}

proof fn lemma_unknown_stays(items: Seq<Seq<char>>, n: int)
    requires
        0 <= n <= items.len(),
        normalized_links(items.take(n)).1 is Some,
    ensures
        normalized_links(items) == normalized_links(items.take(n)),
    decreases items.len() - n,
{
    if n < items.len() {
        assert(items.take(n + 1).drop_last() == items.take(n));
        lemma_unknown_stays(items, n + 1);
    } else {
        assert(items.take(n) == items);
    }
}

/// The text a duplicate is looked up by: pasted content, trimmed, when there
/// is any.
pub fn transcript_lookup_key(transcript: Option<&str>) -> (r: Option<String>)
    ensures
        match r {
            Some(k) => transcript is Some && trim(transcript->0@).len() > 0 && k@ == trim(
                transcript->0@,
            ),
            None => is_blank_text(opt_str_view(transcript)),
        },
{
    match transcript {
        Some(t) => {
            let tv = to_chars(t);
            let tr = trim_chars(tv.as_slice());
            if tr.len() > 0 {
                Some(from_chars(tr.as_slice()))
            } else {
                None
            }
        },
        None => None,
    }
}

/// The link a duplicate is looked up by: trimmed, when it is not blank.
pub fn link_lookup_key(link: &str) -> (r: Option<String>)
    ensures
        match r {
            Some(k) => trim(link@).len() > 0 && k@ == trim(link@),
            None => trim(link@).len() == 0,
        },
{
    let lv = to_chars(link);
    let tr = trim_chars(lv.as_slice());
    if tr.len() > 0 {
        Some(from_chars(tr.as_slice()))
    } else {
        None
    }
}

/// The address a request is attributed to: the first entry of
/// `X-Forwarded-For`, else `X-Real-IP`, else the peer address (blank header
/// values are passed over).
pub open spec fn client_address(forwarded: Option<Seq<char>>, real_ip: Option<Seq<char>>, peer: Seq<char>) -> Seq<char> {
    let first = match forwarded {
        Some(f) => trim(split_char(f, ',')[0]),
        None => Seq::empty(),
    };
    let header_ip = match real_ip {
        Some(r) => trim(r),
        None => Seq::empty(),
    };
    if first.len() > 0 {
        first
    } else if header_ip.len() > 0 {
        header_ip
    } else {
        peer
    }
}

pub fn extract_client_ip(forwarded_for: Option<&str>, real_ip: Option<&str>, peer_ip: &str) -> (r: String)
    ensures
        r@ == client_address(opt_str_view(forwarded_for), opt_str_view(real_ip), peer_ip@),
{
    if let Some(f) = forwarded_for {
        let fv = to_chars(f);
        let parts = crate::split::split_on(fv.as_slice(), ',');
        proof {
            crate::split::lemma_split_char_len(fv@, ',');
        }
        assert(seqs(parts@).len() == parts@.len());
        assert(seqs(parts@)[0] == parts@[0]@);
        let first = trim_chars(parts[0].as_slice());
        if first.len() > 0 {
            return from_chars(first.as_slice());
        }
    }
    if let Some(r) = real_ip {
        let rv = to_chars(r);
        let t = trim_chars(rv.as_slice());
        if t.len() > 0 {
            return from_chars(t.as_slice());
        }
    }
    let pv = to_chars(peer_ip);
    from_chars(pv.as_slice())
}

// ---------------------------------------------------------------------
// Browsing
// ---------------------------------------------------------------------

/// Summaries shown on one browse page.
pub const BROWSE_PAGE_SIZE: u32 = 20;

/// The database offset of a browse page.
pub fn browse_offset(page: u32, page_size: u32) -> (r: u32)
    requires
        page * page_size <= u32::MAX,
    ensures
        r == page * page_size,
{
    page * page_size
}

/// A page has a successor when it came back full.
pub fn browse_has_next(fetched: usize, page_size: u32) -> (r: bool)
    ensures
        r == (fetched == page_size),
{
    fetched == page_size as usize
}

/// The slice `[start, end)` of `len` entries on page `page`, and whether more
/// follow; an empty page (and none following) past the end.
pub open spec fn page_window(len: nat, page: nat, page_size: nat) -> (nat, nat, bool) {
    let offset = page * page_size;
    if offset >= len {
        (0, 0, false)
    } else {
        let end = if offset + page_size < len {
            offset + page_size
        } else {
            len
        };
        (offset, end, end < len)
    }
}

pub fn browse_page_bounds(len: usize, page: u32, page_size: usize) -> (r: (usize, usize, bool))
    requires
        page * page_size <= usize::MAX,
    ensures
        (r.0 as nat, r.1 as nat, r.2) == page_window(len as nat, page as nat, page_size as nat),
{
    let offset = (page as usize) * page_size;
    if offset >= len {
        return (0, 0, false);
    }
    let end = if page_size < len - offset {
        offset + page_size
    } else {
        len
    };
    (offset, end, end < len)
}

/// Runs of consecutive entries with the same non-empty preview, as index
/// ranges `[start, end)`; an empty preview stands alone.
pub open spec fn duplicate_runs(previews: Seq<Seq<char>>) -> Seq<(int, int)>
    decreases previews.len(),
{
    if previews.len() == 0 {
        seq![]
    } else {
        let prev = duplicate_runs(previews.drop_last());
        let n = previews.len() - 1;
        let p = previews.last();
        if prev.len() > 0 && p.len() > 0 && previews[n - 1] == p {
            prev.update(prev.len() - 1, (prev.last().0, previews.len() as int))
        } else {
            prev.push((n, previews.len() as int))
        }
    }
}

/// Groups consecutive entries with identical, non-empty previews.
pub fn group_duplicates(previews: &Vec<String>) -> (r: Vec<(usize, usize)>)
    ensures
        r@.map_values(|p: (usize, usize)| (p.0 as int, p.1 as int)) == duplicate_runs(
            previews@.map_values(|s: String| s@),
        ),
{
    let ghost pv = previews@.map_values(|s: String| s@);
    let mut r: Vec<(usize, usize)> = Vec::new();
    let mut i: usize = 0;
    assert(pv.take(0) =~= Seq::<Seq<char>>::empty());
    while i < previews.len()
        invariant
            i <= previews@.len(),
            pv == previews@.map_values(|s: String| s@),
            r@.map_values(|p: (usize, usize)| (p.0 as int, p.1 as int)) == duplicate_runs(
                pv.take(i as int),
            ),
            r@.len() > 0 <==> i > 0,
        decreases previews@.len() - i,
    {
        let ghost t = pv.take(i + 1);
        assert(t.drop_last() == pv.take(i as int));
        assert(t.last() == previews@[i as int]@);
        let ghost before = r@.map_values(|p: (usize, usize)| (p.0 as int, p.1 as int));
        let cur = to_chars(previews[i].as_str());
        let joins = if i > 0 && r.len() > 0 && cur.len() > 0 {
            let prev = to_chars(previews[i - 1].as_str());
            assert(t[i - 1] == previews@[i - 1]@);
            crate::text::chars_eq(prev.as_slice(), cur.as_slice())
        } else {
            false
        };
        if joins {
            let k = r.len() - 1;
            let start = r[k].0;
            r.set(k, (start, i + 1));
            assert(r@.map_values(|p: (usize, usize)| (p.0 as int, p.1 as int)) =~= before.update(
                before.len() - 1,
                (before.last().0, (i + 1) as int),
            ));
        } else {
            r.push((i, i + 1));
            assert(r@.map_values(|p: (usize, usize)| (p.0 as int, p.1 as int)) =~= before.push(
                (i as int, (i + 1) as int),
            ));
        }
        i = i + 1;
    }
    assert(pv.take(previews@.len() as int) == pv);
    r
}

} // verus!
