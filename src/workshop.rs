use vstd::prelude::*;
use vstd::string::*;
use crate::paths::Platform;
use crate::media::{apng_suffix, ends_with_apng, is_valid_media_file, is_valid_media_name};
use crate::text::{
    all_digits, digits_of, digits_only, find_char_from, first_index_of, last_index_of,
    lower_of, lowercase, rfind_char, starts_with, str_all_digits, str_ends_with,
    str_starts_with, trim_spec, trimmed, ends_with,
};

verus! {

pub open spec fn id_key() -> Seq<char> {
    seq!['i', 'd', '=']
}

proof fn lemma_first_index_bounds(s: Seq<char>, c: char)
    ensures
        0 <= first_index_of(s, c) <= s.len(),
    decreases s.len(),
{
    if s.len() > 0 && s[0] != c {
        lemma_first_index_bounds(s.drop_first(), c);
    }
}

/// The value of the first `id=` parameter in an `&`-separated parameter list.
pub open spec fn id_param(params: Seq<char>) -> Option<Seq<char>>
    decreases params.len(),
    via id_param_decreases
{
    let e = first_index_of(params, '&');
    let seg = params.subrange(0, e);
    if starts_with(seg, id_key()) {
        Some(seg.subrange(3, seg.len() as int))
    } else if e < params.len() {
        id_param(params.subrange(e + 1, params.len() as int))
    } else {
        None
    }
}

#[via_fn]
proof fn id_param_decreases(params: Seq<char>) {
    lemma_first_index_bounds(params, '&');
}

/// The content identifier that a user's input names: the input itself when it
/// is all digits; else the `id=` query parameter; else the digits of the last
/// path segment; else the input as it is (all after trimming whitespace).
pub open spec fn workshop_id_of(raw: Seq<char>) -> Seq<char> {
    let t = trim_spec(raw);
    let q = last_index_of(t, '?');
    let s = last_index_of(t, '/');
    if all_digits(t) {
        t
    } else if q >= 0 && id_param(t.subrange(q + 1, t.len() as int)) is Some {
        id_param(t.subrange(q + 1, t.len() as int))->0
    } else if s >= 0 && digits_of(t.subrange(s + 1, t.len() as int)).len() > 0 {
        digits_of(t.subrange(s + 1, t.len() as int))
    } else {
        t
    }
}

/// Looks for the first `id=` parameter in `t` from position `from` on.
fn find_id_param(t: &str, from: usize) -> (r: Option<String>)
    requires
        from <= t@.len(),
    ensures
        match r {
            Some(v) => id_param(t@.subrange(from as int, t@.len() as int)) == Some(v@),
            None => id_param(t@.subrange(from as int, t@.len() as int)) is None,
        },
{
    let n = t.unicode_len();
    let mut start: usize = from;
    loop
        invariant
            n == t@.len(),
            from <= start <= n,
            id_param(t@.subrange(from as int, n as int)) == id_param(
                t@.subrange(start as int, n as int),
            ),
        decreases n - start,
    {
        let e = find_char_from(t, start, '&');
        let ghost p = t@.subrange(start as int, n as int);
        proof {
            lemma_first_index_bounds(p, '&');
            assert(p.subrange(0, e - start) =~= t@.subrange(start as int, e as int));
            if e < n {
                assert(p.subrange(e - start + 1, p.len() as int) =~= t@.subrange(
                    e + 1,
                    n as int,
                ));
            }
        }
        let seg = t.substring_char(start, e);
        proof {
            reveal_strlit("id=");
        }
        assert("id="@ =~= id_key());
        if str_starts_with(seg, "id=") {
            assert(id_key().len() == 3);
            assert(id_param(p) == Some(seg@.subrange(3, seg@.len() as int)));
            let v = seg.substring_char(3, seg.unicode_len());
            return Some(v.to_owned());
        }
        if e < n {
            start = e + 1;
        } else {
            return None;
        }
    }
}

/// Turns a raw identifier or URL into the numeric content identifier to request.
pub fn extract_workshop_id(input: &str) -> (r: String)
    ensures
        r@ == workshop_id_of(input@),
{
    let t = trimmed(input);
    let n = t.unicode_len();
    if str_all_digits(t.as_str()) {
        return t;
    }
    if let Some(q) = rfind_char(t.as_str(), '?') {
        if let Some(v) = find_id_param(t.as_str(), q + 1) {
            return v;
        }
    }
    if let Some(k) = rfind_char(t.as_str(), '/') {
        let after = t.as_str().substring_char(k + 1, n);
        let clean = digits_only(after);
        if clean.unicode_len() > 0 {
            return clean;
        }
    }
    t
}

/// The outcome of a download: the directory and the playable files found in it.
#[derive(Debug, Clone)]
pub struct DownloadResult {
    pub path: String,
    pub files: Vec<String>,
}

/// What to do with one entry of a freshly downloaded directory.
#[derive(Debug, Clone)]
pub enum EntryPlan {
    /// Not a media file: leave it out.
    Skip,
    /// A playable file, listed under its own name.
    Keep { name: String },
    /// An animated PNG: convert `input` to `output`, then list it as `name`.
    Convert { input: String, output: String, name: String },
}

/// `dir/name`.
pub open spec fn join_spec(dir: Seq<char>, name: Seq<char>) -> Seq<char> {
    dir + seq!['/'] + name
}

/// `s` with every trailing `.apng` (exact case) removed.
pub open spec fn strip_apng_spec(s: Seq<char>) -> Seq<char>
    decreases s.len(),
{
    if s.len() >= 5 && s.subrange(s.len() - 5, s.len() as int) == apng_suffix() {
        strip_apng_spec(s.subrange(0, s.len() - 5))
    } else {
        s
    }
}

/// The name under which a converted animated PNG is listed.
pub open spec fn webp_name_spec(fname: Seq<char>) -> Seq<char> {
    strip_apng_spec(fname) + seq!['.', 'w', 'e', 'b', 'p']
}

/// The plan for one directory entry, as the directory scan decides it.
pub open spec fn plan_matches(p: EntryPlan, dir: Seq<char>, fname: Seq<char>) -> bool {
    let lower = lower_of(fname);
    match p {
        EntryPlan::Skip => !is_valid_media_name(lower),
        EntryPlan::Keep { name } => is_valid_media_name(lower) && !ends_with(lower, apng_suffix())
            && name@ == fname,
        EntryPlan::Convert { input, output, name } => is_valid_media_name(lower) && ends_with(
            lower,
            apng_suffix(),
        ) && input@ == join_spec(dir, fname) && name@ == webp_name_spec(fname) && output@
            == join_spec(dir, webp_name_spec(fname)),
    }
}

/// The name that a planned entry contributes to the result, given whether its conversion succeeded.
pub open spec fn kept_name(p: EntryPlan, converted: bool) -> Option<Seq<char>> {
    match p {
        EntryPlan::Skip => None,
        EntryPlan::Keep { name } => Some(name@),
        EntryPlan::Convert { name, .. } => if converted {
            Some(name@)
        } else {
            None
        },
    }
}

/// The names that a sequence of planned entries contributes, in order.
pub open spec fn kept_names(plans: Seq<EntryPlan>, converted: Seq<bool>) -> Seq<Seq<char>>
    decreases plans.len(),
{
    if plans.len() == 0 {
        Seq::empty()
    } else {
        let rest = kept_names(plans.drop_last(), converted.drop_last());
        match kept_name(plans.last(), converted[plans.len() - 1]) {
            Some(n) => rest.push(n),
            None => rest,
        }
    }
}

/// `dir/name`.
pub fn join_path(dir: &str, name: &str) -> (r: String)
    ensures
        r@ == join_spec(dir@, name@),
{
    let mut r = dir.to_owned();
    proof {
        reveal_strlit("/");
    }
    r.append("/");
    r.append(name);
    assert(r@ =~= join_spec(dir@, name@));
    r
}

/// The listing name of an animated PNG once converted: trailing `.apng` removed, `.webp` added.
pub fn webp_name(fname: &str) -> (r: String)
    ensures
        r@ == webp_name_spec(fname@),
{
    let mut end = fname.unicode_len();
    assert(fname@.subrange(0, end as int) =~= fname@);
    loop
        invariant
            end <= fname@.len(),
            strip_apng_spec(fname@) == strip_apng_spec(fname@.subrange(0, end as int)),
        decreases end,
    {
        let cur = fname.substring_char(0, end);
        if end >= 5 && ends_with_apng(cur) {
            assert(cur@.subrange(0, end - 5) =~= fname@.subrange(0, end - 5));
            end = end - 5;
        } else {
            let mut r = cur.to_owned();
            proof {
                reveal_strlit(".webp");
            }
            r.append(".webp");
            assert(r@ =~= webp_name_spec(fname@));
            return r;
        }
    }
}

/// Decides what to do with the entry `fname` of the downloaded directory `dir`.
pub fn plan_entry(dir: &str, fname: &str) -> (r: EntryPlan)
    ensures
        plan_matches(r, dir@, fname@),
{
    if !is_valid_media_file(fname) {
        return EntryPlan::Skip;
    }
    let lower = lowercase(fname);
    if ends_with_apng(lower.as_str()) {
        let name = webp_name(fname);
        let input = join_path(dir, fname);
        let output = join_path(dir, name.as_str());
        EntryPlan::Convert { input, output, name }
    } else {
        EntryPlan::Keep { name: fname.to_owned() }
    }
}

/// Gathers the result of a download from the planned entries and the outcome of
/// each conversion (`converted[i]` matters only where `plans[i]` is a conversion).
/// Fails when no playable file is left.
pub fn collect_download(dir: &str, plans: &Vec<EntryPlan>, converted: &Vec<bool>) -> (r: Option<
    DownloadResult,
>)
    requires
        plans.len() == converted.len(),
    ensures
        r is Some <==> kept_names(plans@, converted@).len() > 0,
        r matches Some(d) ==> d.path@ == dir@ && d.files@.len() == kept_names(
            plans@,
            converted@,
        ).len() && forall|i: int|
            0 <= i < d.files@.len() ==> #[trigger] d.files@[i]@ == kept_names(
                plans@,
                converted@,
            )[i],
{
    let mut files: Vec<String> = Vec::new();
    let mut i: usize = 0;
    while i < plans.len()
        invariant
            plans.len() == converted.len(),
            i <= plans.len(),
            files@.len() == kept_names(plans@.subrange(0, i as int), converted@.subrange(0, i as int)).len(),
            forall|k: int|
                0 <= k < files@.len() ==> #[trigger] files@[k]@ == kept_names(
                    plans@.subrange(0, i as int),
                    converted@.subrange(0, i as int),
                )[k],
        decreases plans.len() - i,
    {
        let ghost ps = plans@.subrange(0, i + 1);
        let ghost cs = converted@.subrange(0, i + 1);
        assert(ps.drop_last() =~= plans@.subrange(0, i as int));
        assert(cs.drop_last() =~= converted@.subrange(0, i as int));
        assert(ps.last() == plans@[i as int]);
        assert(cs[ps.len() - 1] == converted@[i as int]);
        match &plans[i] {
            EntryPlan::Skip => {},
            EntryPlan::Keep { name } => {
                files.push(name.clone());
            },
            EntryPlan::Convert { name, .. } => {
                if converted[i] {
                    files.push(name.clone());
                }
            },
        }
        i = i + 1;
    }
    assert(plans@.subrange(0, plans.len() as int) =~= plans@);
    assert(converted@.subrange(0, converted.len() as int) =~= converted@);
    if files.len() == 0 {
        return None;
    }
    Some(DownloadResult { path: dir.to_owned(), files })
}

/// The `dir_name/fname` listing entry for an already downloaded file, kept only where
/// the file is valid media and its name ends with none of the `unsupported` suffixes.
pub open spec fn listing_spec(dir_name: Seq<char>, fname: Seq<char>, unsupported: Seq<String>) -> Option<Seq<char>> {
    if is_valid_media_name(lower_of(fname)) && forall|k: int|
        0 <= k < unsupported.len() ==> !ends_with(fname, #[trigger] unsupported[k]@) {
        Some(join_spec(dir_name, fname))
    } else {
        None
    }
}

/// Decides whether a file already on disk is listed for browsing, and under which name.
pub fn listing_entry(dir_name: &str, fname: &str, unsupported: &Vec<String>) -> (r: Option<String>)
    ensures
        match r {
            Some(v) => listing_spec(dir_name@, fname@, unsupported@) == Some(v@),
            None => listing_spec(dir_name@, fname@, unsupported@) is None,
        },
{
    if !is_valid_media_file(fname) {
        return None;
    }
    let mut k: usize = 0;
    while k < unsupported.len()
        invariant
            k <= unsupported.len(),
            forall|j: int| 0 <= j < k ==> !ends_with(fname@, #[trigger] unsupported@[j]@),
        decreases unsupported.len() - k,
    {
        if str_ends_with(fname, unsupported[k].as_str()) {
            return None;
        }
        k = k + 1;
    }
    Some(join_path(dir_name, fname))
}

/// Arguments for an anonymous, non-interactive download of one content item of
/// the application `app_id`.
pub fn download_args(app_id: &str, content_id: &str) -> (r: Vec<String>)
    ensures
        r@.len() == 6,
        r@[0]@ == "+login"@,
        r@[1]@ == "anonymous"@,
        r@[2]@ == "+workshop_download_item"@,
        r@[3]@ == app_id@,
        r@[4]@ == content_id@,
        r@[5]@ == "+quit"@,
{
    let mut r = Vec::new();
    r.push(String::from_str("+login"));
    r.push(String::from_str("anonymous"));
    r.push(String::from_str("+workshop_download_item"));
    r.push(app_id.to_owned());
    r.push(content_id.to_owned());
    r.push(String::from_str("+quit"));
    r
}

/// Where the downloader stores the content of application `app_id`; `home` is the
/// user's home directory as text, where there is one.
pub open spec fn workshop_dir_spec(platform: Platform, home: Option<Seq<char>>, app_id: Seq<char>) -> Seq<char> {
    match home {
        None => seq!['.'],
        Some(h) => match platform {
            Platform::Windows => "C:\\Program Files (x86)\\Steam\\steamapps\\workshop\\content\\"@ + app_id,
            Platform::MacOs => h + "/Library/Application Support/Steam/steamapps/workshop/content/"@ + app_id,
            Platform::Other => h + "/.local/share/Steam/steamapps/workshop/content/"@ + app_id,
        },
    }
}

/// The directory under which downloaded workshop items appear, one subdirectory each.
pub fn workshop_dir(platform: Platform, home: Option<String>, app_id: &str) -> (r: String)
    ensures
        r@ == workshop_dir_spec(platform, crate::paths::opt_view(home), app_id@),
{
    match home {
        None => {
            proof {
                reveal_strlit(".");
            }
            let r = String::from_str(".");
            assert(r@ =~= seq!['.']);
            r
        },
        Some(h) => {
            let mut r = match platform {
                Platform::Windows => String::from_str("C:\\Program Files (x86)\\Steam\\steamapps\\workshop\\content\\"),
                Platform::MacOs => {
                    let mut r = h;
                    r.append("/Library/Application Support/Steam/steamapps/workshop/content/");
                    r
                },
                Platform::Other => {
                    let mut r = h;
                    r.append("/.local/share/Steam/steamapps/workshop/content/");
                    r
                },
            };
            r.append(app_id);
            r
        },
    }
}

} // verus!
