use vstd::prelude::*;

use crate::config::{InstagramConfig, TiktokConfig, TwitterConfig, YoutubeConfig};
use crate::error::Error;
use crate::media::{is_potential_media_file, spec_is_potential_media};
use crate::text::{lemma_lex_total, lex_le, lex_leq, str_eq, trim, trim_spec};

verus! {

/// The usable file names a fetch run left in its workspace, sorted. The
/// workspace directory itself is owned by the caller that ran the tool and
/// must outlive every use of these names.
#[derive(Debug)]
pub struct DownloadResult {
    pub files: Vec<String>,
}

impl DownloadResult {
    /// What the process runner guarantees of every result it hands out: at
    /// least one file, every file a potential media file by name, and the
    /// names in lexicographic order.
    pub open spec fn wf(&self) -> bool {
        &&& self.files@.len() > 0
        &&& sorted_paths(self.files@)
        &&& forall|i: int|
            0 <= i < self.files@.len() ==> spec_is_potential_media(#[trigger] self.files@[i]@)
    }
}

// --- Sorting workspace entries ----------------------------------------------------

/// File names in lexicographic order.
pub open spec fn sorted_paths(s: Seq<String>) -> bool {
    forall|i: int, j: int| 0 <= i < j < s.len() ==> lex_leq(#[trigger] s[i]@, #[trigger] s[j]@)
}

/// Sort file names lexicographically, by insertion, keeping exactly the same
/// collection of names.
pub fn sort_paths(v: &mut Vec<String>)
    ensures
        final(v)@.to_multiset() == old(v)@.to_multiset(),
        sorted_paths(final(v)@),
{
    broadcast use vstd::seq_lib::group_to_multiset_ensures;

    let n = v.len();
    if n <= 1 {
        return ;
    }
    let mut i: usize = 1;
    while i < n
        invariant
            1 <= i <= n,
            n == v@.len(),
            v@.to_multiset() == old(v)@.to_multiset(),
            sorted_paths(v@.take(i as int)),
        decreases n - i,
    {
        let ghost u = v@;
        let x = v.remove(i);
        let mut j: usize = i;
        while j > 0 && !lex_le(v[j - 1].as_str(), x.as_str())
            invariant
                j <= i,
                i < n,
                v@ == u.remove(i as int),
                x == u[i as int],
                n == v@.len() + 1,
                forall|k: int| j <= k < i ==> !lex_leq(#[trigger] v@[k]@, x@),
            decreases j,
        {
            j = j - 1;
        }
        let ghost w = v@;
        v.insert(j, x);
        proof {
            broadcast use vstd::seq_lib::group_to_multiset_ensures;

            // The collection of names is unchanged.
            assert(u.contains(x));
            assert(u.to_multiset().count(x) > 0);
            assert(v@.to_multiset() =~= u.to_multiset());
            // The sorted prefix has grown by one.
            assert(w.take(i as int) =~= u.take(i as int));
            assert forall|a: int, b: int| 0 <= a < b < i + 1 implies lex_leq(
                #[trigger] v@[a]@,
                #[trigger] v@[b]@,
            ) by {
                let jj = j as int;
                if b < jj {
                    assert(v@[a] == w.take(i as int)[a] && v@[b] == w.take(i as int)[b]);
                } else if a < jj && b == jj {
                    assert(v@[a] == w[a]);
                    assert(lex_leq(w[jj - 1]@, x@));
                    if a < jj - 1 {
                        assert(lex_leq(w.take(i as int)[a]@, w.take(i as int)[jj - 1]@));
                        crate::text::lemma_lex_trans(w[a]@, w[jj - 1]@, x@);
                    }
                } else if a == jj && b > jj {
                    assert(v@[b] == w[b - 1]);
                    assert(!lex_leq(w[b - 1]@, x@));
                    lemma_lex_total(w[b - 1]@, x@);
                } else if a < jj && b > jj {
                    assert(v@[a] == w[a] && v@[b] == w[b - 1]);
                    assert(lex_leq(w.take(i as int)[a]@, w.take(i as int)[b - 1]@));
                } else if a > jj {
                    assert(v@[a] == w[a - 1] && v@[b] == w[b - 1]);
                    assert(lex_leq(w.take(i as int)[a - 1]@, w.take(i as int)[b - 1]@));
                }
            }
        }
        i = i + 1;
    }
    assert(v@.take(n as int) =~= v@);
}

// --- Scanning a finished workspace --------------------------------------------------

/// The workspace entries the pre-filter retains, in scan order.
pub open spec fn retained(entries: Seq<String>) -> Seq<String> {
    entries.filter(|s: String| spec_is_potential_media(s@))
}

/// Keep the potential media files among a workspace's entries, sorted; when
/// none remains, the run found no media. `entries` are the file names found in
/// the workspace after the fetch tool exited successfully.
pub fn collect_media_files(entries: &Vec<String>) -> (r: Result<DownloadResult, Error>)
    ensures
        r matches Ok(dr) ==> dr.wf() && dr.files@.to_multiset() == retained(entries@).to_multiset(),
        r matches Err(e) ==> e == Error::NoMediaFound && retained(entries@).len() == 0,
        (r is Err) <==> retained(entries@).len() == 0,
{
    let n = entries.len();
    let mut files: Vec<String> = Vec::new();
    assert(entries@.take(0) =~= Seq::<String>::empty());
    assert(retained(entries@.take(0)) =~= Seq::<String>::empty()) by {
        reveal(Seq::filter);
    }
    for i in 0..n
        invariant
            n == entries@.len(),
            files@ == retained(entries@.take(i as int)),
    {
        let ghost prefix = entries@.take(i as int);
        proof {
            assert(entries@.take(i + 1) =~= prefix + seq![entries@[i as int]]);
            assert(retained(prefix + seq![entries@[i as int]]) == retained(prefix) + retained(
                seq![entries@[i as int]],
            )) by {
                broadcast use vstd::seq_lib::group_seq_lib_default;

            }
            assert(retained(seq![entries@[i as int]]) =~= if spec_is_potential_media(
                entries@[i as int]@,
            ) {
                seq![entries@[i as int]]
            } else {
                Seq::<String>::empty()
            }) by {
                reveal_with_fuel(Seq::<String>::filter, 2);
                assert(seq![entries@[i as int]].drop_last() =~= Seq::<String>::empty());
            }
        }
        if is_potential_media_file(entries[i].as_str()) {
            files.push(entries[i].clone());
        }
        proof {
            assert(files@ =~= retained(entries@.take(i + 1)));
        }
    }
    assert(entries@.take(n as int) =~= entries@);
    if files.is_empty() {
        return Err(Error::NoMediaFound);
    }
    proof {
        broadcast use vstd::seq_lib::group_to_multiset_ensures;

    }
    let ghost unsorted = files@;
    sort_paths(&mut files);
    proof {
        broadcast use vstd::seq_lib::group_to_multiset_ensures;

        assert(files@.to_multiset().len() == unsorted.to_multiset().len());
        assert(files@.len() == unsorted.len());
        assert forall|i: int| 0 <= i < files@.len() implies spec_is_potential_media(
            #[trigger] files@[i]@,
        ) by {
            assert(files@.to_multiset().count(files@[i]) > 0);
            assert(unsorted.contains(files@[i]));
            let j = choose|j: int| 0 <= j < unsorted.len() && unsorted[j] == files@[i];
            assert(unsorted[j] == retained(entries@)[j]);
            vstd::seq::Seq::lemma_filter_pred(
                entries@,
                |s: String| spec_is_potential_media(s@),
                j,
            );
        }
    }
    Ok(DownloadResult { files })
}

// --- Classifying how the fetch tool exited -------------------------------------------

/// Decide the outcome of a fetch-tool run from its exit status and captured
/// stderr. Success passes through; a non-zero exit becomes a tool-tagged
/// error carrying the trimmed stderr text.
pub fn classify_run(cmd: &str, exited_ok: bool, stderr: &str) -> (r: Result<(), Error>)
    ensures
        exited_ok <==> r is Ok,
        !exited_ok && trim_spec(stderr@).len() == 0 ==> (r matches Err(e)
            && e matches Error::Other(m) && m@ == cmd@ + " failed: "@),
        !exited_ok && trim_spec(stderr@).len() > 0 && cmd@ == "yt-dlp"@ ==> (r matches Err(e)
            && e matches Error::YTDLPFailed(m) && m@ == trim_spec(stderr@)),
        !exited_ok && trim_spec(stderr@).len() > 0 && cmd@ != "yt-dlp"@ ==> (r matches Err(e)
            && e matches Error::Other(m) && m@ == cmd@ + " failed: "@ + trim_spec(stderr@)),
{
    if exited_ok {
        return Ok(());
    }
    let trimmed = trim(stderr);
    if trimmed.unicode_len() == 0 {
        return Err(Error::Other(String::from_str(cmd).concat(" failed: ")));
    }
    if str_eq(cmd, "yt-dlp") {
        Err(Error::ytdlp_failed(trimmed))
    } else {
        Err(Error::Other(String::from_str(cmd).concat(" failed: ").concat(trimmed)))
    }
}

/// The full decision for a finished fetch run: classify the exit, then keep
/// and order the usable workspace entries; an empty yield is `NoMediaFound`.
pub fn process_run_output(cmd: &str, exited_ok: bool, stderr: &str, entries: &Vec<String>) -> (r:
    Result<DownloadResult, Error>)
    ensures
        exited_ok ==> ((r matches Ok(dr) ==> dr.wf() && dr.files@.to_multiset() == retained(
            entries@,
        ).to_multiset()) && (r matches Err(e) ==> e == Error::NoMediaFound && retained(
            entries@,
        ).len() == 0)),
        !exited_ok && trim_spec(stderr@).len() == 0 ==> (r matches Err(e)
            && e matches Error::Other(m) && m@ == cmd@ + " failed: "@),
        !exited_ok && trim_spec(stderr@).len() > 0 && cmd@ == "yt-dlp"@ ==> (r matches Err(e)
            && e matches Error::YTDLPFailed(m) && m@ == trim_spec(stderr@)),
        !exited_ok && trim_spec(stderr@).len() > 0 && cmd@ != "yt-dlp"@ ==> (r matches Err(e)
            && e matches Error::Other(m) && m@ == cmd@ + " failed: "@ + trim_spec(stderr@)),
{
    match classify_run(cmd, exited_ok, stderr) {
        Ok(_) => collect_media_files(entries),
        Err(e) => Err(e),
    }
}

// --- Fetch-tool argument lists ---------------------------------------------------------

/// The argument list for an Instagram fetch.
pub open spec fn spec_instagram_args(cookies: Option<Seq<char>>, url: Seq<char>) -> Seq<Seq<char>> {
    let base = seq!["-t"@, "mp4"@, "--extractor-args"@, "instagram:"@];
    match cookies {
        Some(p) => base + seq!["--cookies"@, p] + seq![url],
        None => base + seq![url],
    }
}

/// Build the yt-dlp arguments for an Instagram URL, injecting the configured
/// cookie file when one is present.
pub fn instagram_args(cfg: &InstagramConfig, url: &str) -> (r: Vec<String>)
    ensures
        cfg.cookies_path matches Some(p) ==> r.deep_view() == spec_instagram_args(
            Some(p@),
            url@,
        ),
        cfg.cookies_path is None ==> r.deep_view() == spec_instagram_args(None, url@),
{
    let mut args: Vec<String> = Vec::new();
    args.push(String::from_str("-t"));
    args.push(String::from_str("mp4"));
    args.push(String::from_str("--extractor-args"));
    args.push(String::from_str("instagram:"));
    match &cfg.cookies_path {
        Option::Some(p) => {
            args.push(String::from_str("--cookies"));
            args.push(p.clone());
        },
        Option::None => {},
    }
    args.push(url.to_owned());
    proof {
        if cfg.cookies_path is Some {
            assert(args.deep_view() =~~= spec_instagram_args(
                Some(cfg.cookies_path->Some_0@),
                url@,
            ));
        } else {
            assert(args.deep_view() =~~= spec_instagram_args(None, url@));
        }
    }
    args
}

/// The argument list for a TikTok fetch.
pub open spec fn spec_tiktok_args(cookies: Option<Seq<char>>, url: Seq<char>) -> Seq<Seq<char>> {
    let base = seq!["-t"@, "mp4"@, "--extractor-args"@, "tiktok:"@];
    match cookies {
        Some(p) => base + seq!["--cookies"@, p] + seq![url],
        None => base + seq![url],
    }
}

/// Build the yt-dlp arguments for a TikTok URL, injecting the configured
/// cookie file when one is present.
pub fn tiktok_args(cfg: &TiktokConfig, url: &str) -> (r: Vec<String>)
    ensures
        cfg.cookies_path matches Some(p) ==> r.deep_view() == spec_tiktok_args(Some(p@), url@),
        cfg.cookies_path is None ==> r.deep_view() == spec_tiktok_args(None, url@),
{
    let mut args: Vec<String> = Vec::new();
    args.push(String::from_str("-t"));
    args.push(String::from_str("mp4"));
    args.push(String::from_str("--extractor-args"));
    args.push(String::from_str("tiktok:"));
    match &cfg.cookies_path {
        Option::Some(p) => {
            args.push(String::from_str("--cookies"));
            args.push(p.clone());
        },
        Option::None => {},
    }
    args.push(url.to_owned());
    proof {
        if cfg.cookies_path is Some {
            assert(args.deep_view() =~~= spec_tiktok_args(Some(cfg.cookies_path->Some_0@), url@));
        } else {
            assert(args.deep_view() =~~= spec_tiktok_args(None, url@));
        }
    }
    args
}

/// The argument list for a Twitter fetch.
pub open spec fn spec_twitter_args(cookies: Option<Seq<char>>, url: Seq<char>) -> Seq<Seq<char>> {
    let base = seq!["-t"@, "mp4"@, "--extractor-args"@, "twitter:"@];
    match cookies {
        Some(p) => base + seq!["--cookies"@, p] + seq![url],
        None => base + seq![url],
    }
}

/// Build the yt-dlp arguments for a Twitter URL, injecting the configured
/// cookie file when one is present.
pub fn twitter_args(cfg: &TwitterConfig, url: &str) -> (r: Vec<String>)
    ensures
        cfg.cookies_path matches Some(p) ==> r.deep_view() == spec_twitter_args(Some(p@), url@),
        cfg.cookies_path is None ==> r.deep_view() == spec_twitter_args(None, url@),
{
    let mut args: Vec<String> = Vec::new();
    args.push(String::from_str("-t"));
    args.push(String::from_str("mp4"));
    args.push(String::from_str("--extractor-args"));
    args.push(String::from_str("twitter:"));
    match &cfg.cookies_path {
        Option::Some(p) => {
            args.push(String::from_str("--cookies"));
            args.push(p.clone());
        },
        Option::None => {},
    }
    args.push(url.to_owned());
    proof {
        if cfg.cookies_path is Some {
            assert(args.deep_view() =~~= spec_twitter_args(Some(cfg.cookies_path->Some_0@), url@));
        } else {
            assert(args.deep_view() =~~= spec_twitter_args(None, url@));
        }
    }
    args
}

/// The argument list for a YouTube fetch: no playlists, a single mp4 with a
/// restricted file name, and the configured post-processing pass-through.
pub open spec fn spec_youtube_args(
    cookies: Option<Seq<char>>,
    postprocessor: Seq<char>,
    url: Seq<char>,
) -> Seq<Seq<char>> {
    let base = seq![
        "--no-playlist"@,
        "-t"@,
        "mp4"@,
        "--restrict-filenames"@,
        "-o"@,
        "%(title)s.%(ext)s"@,
        "--postprocessor-args"@,
        postprocessor,
    ];
    match cookies {
        Some(p) => base + seq!["--cookies"@, p] + seq![url],
        None => base + seq![url],
    }
}

/// Build the yt-dlp arguments for a YouTube URL, injecting the configured
/// cookie file when one is present.
pub fn youtube_args(cfg: &YoutubeConfig, url: &str) -> (r: Vec<String>)
    ensures
        cfg.cookies_path matches Some(p) ==> r.deep_view() == spec_youtube_args(
            Some(p@),
            cfg.postprocessor_args@,
            url@,
        ),
        cfg.cookies_path is None ==> r.deep_view() == spec_youtube_args(
            None,
            cfg.postprocessor_args@,
            url@,
        ),
{
    let mut args: Vec<String> = Vec::new();
    args.push(String::from_str("--no-playlist"));
    args.push(String::from_str("-t"));
    args.push(String::from_str("mp4"));
    args.push(String::from_str("--restrict-filenames"));
    args.push(String::from_str("-o"));
    args.push(String::from_str("%(title)s.%(ext)s"));
    args.push(String::from_str("--postprocessor-args"));
    args.push(cfg.postprocessor_args.clone());
    match &cfg.cookies_path {
        Option::Some(p) => {
            args.push(String::from_str("--cookies"));
            args.push(p.clone());
        },
        Option::None => {},
    }
    args.push(url.to_owned());
    proof {
        if cfg.cookies_path is Some {
            assert(args.deep_view() =~~= spec_youtube_args(
                Some(cfg.cookies_path->Some_0@),
                cfg.postprocessor_args@,
                url@,
            ));
        } else {
            assert(args.deep_view() =~~= spec_youtube_args(None, cfg.postprocessor_args@, url@));
        }
    }
    args
}

} // verus!
