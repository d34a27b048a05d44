use vstd::prelude::*;
use vstd::string::*;
use crate::paths::{file_stem, file_stem_of, join, joined_of, opt_view, parent, parent_of};
use crate::text::{ends_with, str_ends_with};

verus! {

broadcast use vstd::seq_lib::group_to_multiset_ensures;

pub open spec fn webp_ext() -> Seq<char> {
    seq!['.', 'w', 'e', 'b', 'p']
}

/// Where the animated WebP made from `input` is written: beside it, under its file
/// stem with the `.webp` extension.
pub open spec fn webp_sibling_spec(input: Seq<char>) -> Option<Seq<char>> {
    match (parent_of(input), file_stem_of(input)) {
        (Some(dir), Some(stem)) => Some(joined_of(dir, stem + webp_ext())),
        _ => None,
    }
}

/// The output path for converting `input`, where the input has a parent and a stem.
pub fn webp_sibling_path(input: &str) -> (r: Option<String>)
    ensures
        opt_view(r) == webp_sibling_spec(input@),
{
    let dir = match parent(input) {
        Some(d) => d,
        None => return None,
    };
    let stem = match file_stem(input) {
        Some(s) => s,
        None => return None,
    };
    let mut name = stem;
    proof {
        reveal_strlit(".webp");
    }
    name.append(".webp");
    assert(name@ =~= file_stem_of(input@)->0 + webp_ext());
    Some(join(dir.as_str(), name.as_str()))
}

/// The fixed installation directories probed for a tool, in order.
pub open spec fn candidate_spec(name: Seq<char>) -> Seq<Seq<char>> {
    seq![
        seq!['/', 'o', 'p', 't', '/', 'h', 'o', 'm', 'e', 'b', 'r', 'e', 'w', '/', 'b', 'i', 'n', '/'] + name,
        seq!['/', 'u', 's', 'r', '/', 'l', 'o', 'c', 'a', 'l', '/', 'b', 'i', 'n', '/'] + name,
        seq!['/', 'u', 's', 'r', '/', 'b', 'i', 'n', '/'] + name,
    ]
}

fn prefixed(prefix: &str, name: &str) -> (r: String)
    ensures
        r@ == prefix@ + name@,
{
    let mut r = prefix.to_owned();
    r.append(name);
    r
}

/// The paths at which a tool called `name` is looked for before the search path.
pub fn command_candidates(name: &str) -> (r: Vec<String>)
    ensures
        r@.len() == 3,
        forall|i: int| 0 <= i < 3 ==> #[trigger] r@[i]@ == candidate_spec(name@)[i],
{
    proof {
        reveal_strlit("/opt/homebrew/bin/");
        reveal_strlit("/usr/local/bin/");
        reveal_strlit("/usr/bin/");
    }
    let a = prefixed("/opt/homebrew/bin/", name);
    let b = prefixed("/usr/local/bin/", name);
    let c = prefixed("/usr/bin/", name);
    assert(a@ =~= candidate_spec(name@)[0]);
    assert(b@ =~= candidate_spec(name@)[1]);
    assert(c@ =~= candidate_spec(name@)[2]);
    let mut r = Vec::new();
    r.push(a);
    r.push(b);
    r.push(c);
    r
}

/// Where a tool is found: the first candidate that exists, else what the search
/// path reported, where that is not empty.
pub open spec fn pick_command_spec(cands: Seq<Seq<char>>, exists: Seq<bool>, found: Option<Seq<char>>) -> Option<Seq<char>>
    decreases cands.len(),
{
    if cands.len() == 0 || exists.len() == 0 {
        match found {
            Some(f) => if f.len() > 0 {
                Some(f)
            } else {
                None
            },
            None => None,
        }
    } else if exists[0] {
        Some(cands[0])
    } else {
        pick_command_spec(cands.drop_first(), exists.drop_first(), found)
    }
}

pub open spec fn strings_view(v: Seq<String>) -> Seq<Seq<char>> {
    v.map_values(|s: String| s@)
}

/// Chooses a tool's location. `exists[i]` tells whether `candidates[i]` exists;
/// `found` is the trimmed answer of the search path lookup, where it succeeded.
pub fn pick_command(candidates: &Vec<String>, exists: &Vec<bool>, found: Option<String>) -> (r: Option<String>)
    requires
        candidates.len() == exists.len(),
    ensures
        opt_view(r) == pick_command_spec(strings_view(candidates@), exists@, opt_view(found)),
{
    let mut i: usize = 0;
    assert(strings_view(candidates@).subrange(0, candidates.len() as int) =~= strings_view(candidates@));
    assert(exists@.subrange(0, exists.len() as int) =~= exists@);
    while i < candidates.len()
        invariant
            candidates.len() == exists.len(),
            i <= candidates.len(),
            pick_command_spec(strings_view(candidates@), exists@, opt_view(found))
                == pick_command_spec(
                strings_view(candidates@).subrange(i as int, candidates.len() as int),
                exists@.subrange(i as int, exists.len() as int),
                opt_view(found),
            ),
        decreases candidates.len() - i,
    {
        let ghost cs = strings_view(candidates@).subrange(i as int, candidates.len() as int);
        let ghost es = exists@.subrange(i as int, exists.len() as int);
        assert(cs.drop_first() =~= strings_view(candidates@).subrange(i + 1, candidates.len() as int));
        assert(es.drop_first() =~= exists@.subrange(i + 1, exists.len() as int));
        assert(cs[0] == candidates@[i as int]@);
        if exists[i] {
            return Some(candidates[i].clone());
        }
        i = i + 1;
    }
    assert(strings_view(candidates@).subrange(i as int, candidates.len() as int).len() == 0);
    match found {
        Some(f) => if f.unicode_len() > 0 {
            Some(f)
        } else {
            None
        },
        None => None,
    }
}

/// Lexicographic order on character sequences, by code point; for UTF-8 text it
/// agrees with the byte order by which `String` compares.
pub open spec fn lex_le(a: Seq<char>, b: Seq<char>) -> bool
    decreases a.len(),
{
    if a.len() == 0 {
        true
    } else if b.len() == 0 {
        false
    } else if a[0] != b[0] {
        a[0] < b[0]
    } else {
        lex_le(a.drop_first(), b.drop_first())
    }
}

pub open spec fn sorted_lex(s: Seq<Seq<char>>) -> bool {
    forall|i: int, j: int| 0 <= i < j < s.len() ==> lex_le(#[trigger] s[i], #[trigger] s[j])
}

proof fn lemma_lex_total(a: Seq<char>, b: Seq<char>)
    ensures
        lex_le(a, b) || lex_le(b, a),
    decreases a.len(),
{
    if a.len() > 0 && b.len() > 0 && a[0] == b[0] {
        lemma_lex_total(a.drop_first(), b.drop_first());
    }
}

proof fn lemma_lex_trans(a: Seq<char>, b: Seq<char>, c: Seq<char>)
    requires
        lex_le(a, b),
        lex_le(b, c),
    ensures
        lex_le(a, c),
    decreases a.len(),
{
    if a.len() > 0 && b.len() > 0 && c.len() > 0 && a[0] == b[0] && b[0] == c[0] {
        lemma_lex_trans(a.drop_first(), b.drop_first(), c.drop_first());
    }
}

/// Compares two strings by `lex_le`.
pub fn str_lex_le(a: &str, b: &str) -> (r: bool)
    ensures
        r == lex_le(a@, b@),
{
    let n = a.unicode_len();
    let m = b.unicode_len();
    let mut i: usize = 0;
    assert(a@.subrange(0, n as int) =~= a@);
    assert(b@.subrange(0, m as int) =~= b@);
    while i < n && i < m
        invariant
            n == a@.len(),
            m == b@.len(),
            i <= n,
            i <= m,
            lex_le(a@, b@) == lex_le(a@.subrange(i as int, n as int), b@.subrange(i as int, m as int)),
        decreases n - i,
    {
        let ca = a.get_char(i);
        let cb = b.get_char(i);
        let ghost sa = a@.subrange(i as int, n as int);
        let ghost sb = b@.subrange(i as int, m as int);
        assert(sa[0] == ca && sb[0] == cb);
        if ca != cb {
            return ca < cb;
        }
        assert(sa.drop_first() =~= a@.subrange(i + 1, n as int));
        assert(sb.drop_first() =~= b@.subrange(i + 1, m as int));
        i = i + 1;
    }
    i == n
}

pub open spec fn png_ext() -> Seq<char> {
    seq!['.', 'p', 'n', 'g']
}

/// The entries that end in `.png` (exact case), in order.
pub open spec fn png_entries(s: Seq<Seq<char>>) -> Seq<Seq<char>> {
    s.filter(|e: Seq<char>| ends_with(e, png_ext()))
}

/// Picks the frame files from the entries of the frame directory and orders them;
/// with zero-padded frame numbers this is the order of the animation.
pub fn select_frames(entries: &Vec<String>) -> (r: Vec<String>)
    ensures
        sorted_lex(strings_view(r@)),
        strings_view(r@).to_multiset() == png_entries(strings_view(entries@)).to_multiset(),
{
    let mut out: Vec<String> = Vec::new();
    let mut i: usize = 0;
    proof {
        reveal_strlit(".png");
    }
    assert(".png"@ =~= png_ext());
    while i < entries.len()
        invariant
            i <= entries.len(),
            ".png"@ == png_ext(),
            sorted_lex(strings_view(out@)),
            strings_view(out@).to_multiset() == png_entries(
                strings_view(entries@).subrange(0, i as int),
            ).to_multiset(),
        decreases entries.len() - i,
    {
        let ghost pre = strings_view(entries@).subrange(0, i as int);
        let ghost next = strings_view(entries@).subrange(0, i + 1);
        assert(next.drop_last() =~= pre);
        assert(next.last() == entries@[i as int]@);
        assert(png_entries(next) == if ends_with(entries@[i as int]@, png_ext()) {
            png_entries(pre).push(entries@[i as int]@)
        } else {
            png_entries(pre)
        }) by {
            reveal(Seq::filter);
        }
        if str_ends_with(entries[i].as_str(), ".png") {
            let e = entries[i].clone();
            let mut p: usize = 0;
            while p < out.len() && str_lex_le(out[p].as_str(), e.as_str())
                invariant
                    p <= out.len(),
                    forall|k: int| 0 <= k < p ==> lex_le(#[trigger] out@[k]@, e@),
                decreases out.len() - p,
            {
                p = p + 1;
            }
            let ghost before = strings_view(out@);
            out.insert(p, e);
            assert(strings_view(out@) =~= before.insert(p as int, e@));
            proof {
                assert forall|a: int, b: int|
                    0 <= a < b < out@.len() implies lex_le(
                    #[trigger] strings_view(out@)[a],
                    #[trigger] strings_view(out@)[b],
                ) by {
                    let v = strings_view(out@);
                    if b == p {
                        assert(v[a] == before[a]);
                    } else if a == p {
                        let b0 = b - 1;
                        assert(v[b] == before[b0]);
                        lemma_lex_total(before[p as int], e@);
                        if b0 > p {
                            lemma_lex_trans(e@, before[p as int], before[b0]);
                        }
                    } else {
                        let a0 = if a < p { a } else { a - 1 };
                        let b0 = if b < p { b } else { b - 1 };
                        assert(v[a] == before[a0]);
                        assert(v[b] == before[b0]);
                    }
                }
            }
        }
        i = i + 1;
    }
    assert(strings_view(entries@).subrange(0, entries.len() as int) =~= strings_view(entries@));
    out
}

/// The frame file name pattern handed to the demuxer: three-digit zero-padded
/// numbers, so that name order and frame order agree up to 999 frames.
pub fn frame_pattern(frames_dir: &str) -> (r: String)
    ensures
        r@ == joined_of(frames_dir@, "f%03d.png"@),
{
    join(frames_dir, "f%03d.png")
}

/// Arguments that make the demuxer split `input` into numbered still frames.
pub fn demux_args(input: &str, pattern: &str) -> (r: Vec<String>)
    ensures
        r@.len() == 4,
        r@[0]@ == "-y"@,
        r@[1]@ == "-i"@,
        r@[2]@ == input@,
        r@[3]@ == pattern@,
{
    let mut r = Vec::new();
    r.push(String::from_str("-y"));
    r.push(String::from_str("-i"));
    r.push(input.to_owned());
    r.push(pattern.to_owned());
    r
}

/// Arguments that make the assembler join `frames`, in order, into `output`.
pub fn assemble_args(frames: &Vec<String>, output: &str) -> (r: Vec<String>)
    ensures
        r@.len() == frames@.len() + 2,
        forall|i: int| 0 <= i < frames@.len() ==> #[trigger] r@[i]@ == frames@[i]@,
        r@[frames@.len() as int]@ == "-o"@,
        r@[frames@.len() + 1int]@ == output@,
{
    let mut r: Vec<String> = Vec::new();
    let mut i: usize = 0;
    while i < frames.len()
        invariant
            i <= frames.len(),
            r@.len() == i,
            forall|k: int| 0 <= k < i ==> #[trigger] r@[k]@ == frames@[k]@,
        decreases frames.len() - i,
    {
        r.push(frames[i].clone());
        i = i + 1;
    }
    r.push(String::from_str("-o"));
    r.push(output.to_owned());
    r
}

/// Arguments for converting `input` to an animated WebP `output` in one step with
/// the general-purpose transcoder.
pub fn transcode_args(input: &str, output: &str) -> (r: Vec<String>)
    ensures
        r@.len() == 12,
        r@[0]@ == "-y"@,
        r@[1]@ == "-i"@,
        r@[2]@ == input@,
        r@[3]@ == "-c:v"@,
        r@[4]@ == "libwebp"@,
        r@[5]@ == "-lossless"@,
        r@[6]@ == "0"@,
        r@[7]@ == "-loop"@,
        r@[8]@ == "0"@,
        r@[9]@ == "-fps_mode"@,
        r@[10]@ == "vfr"@,
        r@[11]@ == output@,
{
    let mut r = Vec::new();
    r.push(String::from_str("-y"));
    r.push(String::from_str("-i"));
    r.push(input.to_owned());
    r.push(String::from_str("-c:v"));
    r.push(String::from_str("libwebp"));
    r.push(String::from_str("-lossless"));
    r.push(String::from_str("0"));
    r.push(String::from_str("-loop"));
    r.push(String::from_str("0"));
    r.push(String::from_str("-fps_mode"));
    r.push(String::from_str("vfr"));
    r.push(output.to_owned());
    r
}

} // verus!
