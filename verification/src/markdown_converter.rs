use vstd::prelude::*;
use crate::text::{to_chars, from_chars};
use crate::strops::{replace_all, replace_str};
use crate::pattern::{replaced_or_kept, replace_matches};

verus! {

// ---------------------------------------------------------------------
// Bold markers
// ---------------------------------------------------------------------

/// Moves `:`, `,`, `;` and `.` from just after a bold marker to just before
/// it, in that order of replacements.
pub open spec fn punctuation_moved(s: Seq<char>, marker: Seq<char>) -> Seq<char> {
    let a = replace_all(s, marker + ":"@, ":"@ + marker);
    let b = replace_all(a, marker + ","@, ","@ + marker);
    let c = replace_all(b, marker + ";"@, ";"@ + marker);
    replace_all(c, marker + "."@, "."@ + marker)
}

/// Every run of asterisks shortened to one asterisk (what replacing `**` by
/// `*` until none is left comes to).
pub open spec fn squeeze_stars(s: Seq<char>) -> Seq<char>
    decreases s.len(),
{
    if s.len() == 0 {
        Seq::empty()
    } else {
        let p = squeeze_stars(s.drop_last());
        if s.last() == '*' && s.len() >= 2 && s[s.len() - 2] == '*' {
            p
        } else {
            p.push(s.last())
        }
    }
}

/// The markdown with YouTube's single-asterisk bold, punctuation outside the
/// markers.
pub open spec fn youtube_bold(s: Seq<char>) -> Seq<char> {
    punctuation_moved(squeeze_stars(punctuation_moved(s, "**"@)), "*"@)
}

fn move_punctuation(s: &[char], double: bool) -> (r: Vec<char>)
    ensures
        r@ == punctuation_moved(
            s@,
            if double {
                "**"@
            } else {
                "*"@
            },
        ),
{
    proof {
        reveal_strlit("**:");
        reveal_strlit("**,");
        reveal_strlit("**;");
        reveal_strlit("**.");
        reveal_strlit("*:");
        reveal_strlit("*,");
        reveal_strlit("*;");
        reveal_strlit("*.");
        reveal_strlit(":**");
        reveal_strlit(",**");
        reveal_strlit(";**");
        reveal_strlit(".**");
        reveal_strlit(":*");
        reveal_strlit(",*");
        reveal_strlit(";*");
        reveal_strlit(".*");
        reveal_strlit("**");
        reveal_strlit("*");
        reveal_strlit(":");
        reveal_strlit(",");
        reveal_strlit(";");
        reveal_strlit(".");
    }
    if double {
        assert("**:"@ =~= "**"@ + ":"@ && ":**"@ =~= ":"@ + "**"@);
        assert("**,"@ =~= "**"@ + ","@ && ",**"@ =~= ","@ + "**"@);
        assert("**;"@ =~= "**"@ + ";"@ && ";**"@ =~= ";"@ + "**"@);
        assert("**."@ =~= "**"@ + "."@ && ".**"@ =~= "."@ + "**"@);
        let a = replace_str(s, "**:", ":**");
        let b = replace_str(a.as_slice(), "**,", ",**");
        let c = replace_str(b.as_slice(), "**;", ";**");
        replace_str(c.as_slice(), "**.", ".**")
    } else {
        assert("*:"@ =~= "*"@ + ":"@ && ":*"@ =~= ":"@ + "*"@);
        assert("*,"@ =~= "*"@ + ","@ && ",*"@ =~= ","@ + "*"@);
        assert("*;"@ =~= "*"@ + ";"@ && ";*"@ =~= ";"@ + "*"@);
        assert("*."@ =~= "*"@ + "."@ && ".*"@ =~= "."@ + "*"@);
        let a = replace_str(s, "*:", ":*");
        let b = replace_str(a.as_slice(), "*,", ",*");
        let c = replace_str(b.as_slice(), "*;", ";*");
        replace_str(c.as_slice(), "*.", ".*")
    }
}

fn squeeze_stars_exec(s: &[char]) -> (r: Vec<char>)
    ensures
        r@ == squeeze_stars(s@),
{
    let mut r: Vec<char> = Vec::new();
    let mut i: usize = 0;
    assert(s@.take(0) =~= Seq::<char>::empty());
    while i < s.len()
        invariant
            i <= s@.len(),
            r@ == squeeze_stars(s@.take(i as int)),
        decreases s@.len() - i,
    {
        let ghost t = s@.take(i + 1);
        assert(t.drop_last() == s@.take(i as int));
        assert(t.last() == s@[i as int]);
        if i > 0 {
            assert(t[t.len() - 2] == s@[i - 1]);
        }
        if !(s[i] == '*' && i >= 1 && s[i - 1] == '*') {
            r.push(s[i]);
        }
        i = i + 1;
    }
    assert(s@.take(s@.len() as int) == s@);
    r
}

/// The bold-marker part of the YouTube conversion: punctuation moved out of
/// `**` markers, `**` collapsed to `*`, punctuation moved out of `*` markers.
pub fn youtube_bold_markers(text: &str) -> (r: String)
    ensures
        r@ == youtube_bold(text@),
{
    let v = to_chars(text);
    let a = move_punctuation(v.as_slice(), true);
    let b = squeeze_stars_exec(a.as_slice());
    let c = move_punctuation(b.as_slice(), false);
    from_chars(c.as_slice())
}

/// Squeezing leaves no two asterisks side by side.
pub proof fn lemma_squeezed_has_no_double_star(s: Seq<char>)
    ensures
        forall|i: int|
            0 <= i < squeeze_stars(s).len() - 1 ==> !(#[trigger] squeeze_stars(s)[i] == '*'
                && squeeze_stars(s)[i + 1] == '*'),
        squeeze_stars(s).len() > 0 ==> (s.len() > 0 && squeeze_stars(s).last() == s.last()),
    decreases s.len(),
{
    if s.len() > 0 {
        lemma_squeezed_has_no_double_star(s.drop_last());
        let p = squeeze_stars(s.drop_last());
        if !(s.last() == '*' && s.len() >= 2 && s[s.len() - 2] == '*') {
            let q = p.push(s.last());
            assert forall|i: int| 0 <= i < q.len() - 1 implies !(#[trigger] q[i] == '*' && q[i
                + 1] == '*') by {
                if i < p.len() - 1 {
                    assert(q[i] == p[i] && q[i + 1] == p[i + 1]);
                } else if p.len() > 0 {
                    assert(p.last() == s.drop_last().last());
                }
            }
        } else {
            assert(s.drop_last().last() == '*');
        }
    }
}

// ---------------------------------------------------------------------
// Headings and links
// ---------------------------------------------------------------------

/// Turns `## Heading` lines into `*Heading*`.
pub const HEADING_PATTERN: &'static str = "(?m)^##\\s*(.*)";

/// A link ending in a known top-level domain: the part before the dot, and
/// the domain.
pub const LINK_DOMAIN_PATTERN: &'static str = "((?:https?://)?(?:www\\.)?\\S+)\\.(com|org|de|us|gov|net|edu|info|io|co\\.uk|ca|fr|au|jp|ru|ch|it|nl|se|es|br|mx|in|kr)";

/// Converts markdown to YouTube comment format: single-asterisk bold with
/// punctuation outside the markers, `## Heading` lines as bold text, and the
/// dot before a link's top-level domain spelled `-dot-`.
pub fn convert_markdown_to_youtube_format(text: &str) -> (r: String)
    ensures
        r@ == replaced_or_kept(
            LINK_DOMAIN_PATTERN@,
            replaced_or_kept(HEADING_PATTERN@, youtube_bold(text@), "*$1*"@),
            "$1-dot-$2"@,
        ),
{
    let bold = youtube_bold_markers(text);
    let headed = replace_matches(HEADING_PATTERN, bold.as_str(), "*$1*");
    replace_matches(LINK_DOMAIN_PATTERN, headed.as_str(), "$1-dot-$2")
}

} // verus!
