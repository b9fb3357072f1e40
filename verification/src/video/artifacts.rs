//! The names of artifacts. A name comes from the job's identity and kind alone,
//! never from a user's input: a job has exactly one file, and no name leaves the
//! directory.

use crate::digest;
use crate::identity;
use crate::model::{ArtifactKind, JobId};
use crate::text;
use vstd::prelude::*;

verus! {

/// The media type of every artifact.
pub const SVG_MEDIA_TYPE: &'static str = "image/svg+xml";

/// The name of a kind.
pub open spec fn kind_text(kind: ArtifactKind) -> Seq<char> {
    match kind {
        ArtifactKind::MarketVideo => "market_video"@,
        ArtifactKind::Poster => "poster"@,
    }
}

#[must_use]
pub fn kind_name(kind: ArtifactKind) -> (r: &'static str)
    ensures
        r@ == kind_text(kind),
{
    match kind {
        ArtifactKind::MarketVideo => "market_video",
        ArtifactKind::Poster => "poster",
    }
}

/// The file of an artifact.
pub open spec fn file_text(job: JobId, kind: ArtifactKind) -> Seq<char> {
    identity::uuid_text(job.0) + "_"@ + kind_text(kind) + ".svg"@
}

/// The file of an artifact, within the rendering directory.
#[must_use]
pub fn asset_file_name(job: JobId, kind: ArtifactKind) -> (r: String)
    ensures
        r@ == file_text(job, kind),
{
    let stem = text::join3(identity::format_uuid(job.0).as_str(), "_", kind_name(kind));
    text::join2(stem.as_str(), ".svg")
}

/// The address that an artifact is served under.
pub open spec fn url_text(job: JobId) -> Seq<char> {
    "/assets/"@ + identity::uuid_text(job.0) + ".svg"@
}

/// The address that an artifact is served under.
#[must_use]
pub fn asset_url(job: JobId) -> (r: String)
    ensures
        r@ == url_text(job),
{
    text::join3("/assets/", identity::format_uuid(job.0).as_str(), ".svg")
}

/// Each job and kind has a file of its own, and each job an address of its own.
pub proof fn law_artifact_names_tell_jobs_apart(a: JobId, k: ArtifactKind, b: JobId, l: ArtifactKind)
    ensures
        file_text(a, k) == file_text(b, l) ==> a == b && k == l,
        url_text(a) == url_text(b) ==> a == b,
{
    let x = identity::uuid_text(a.0);
    let y = identity::uuid_text(b.0);
    if file_text(a, k) == file_text(b, l) {
        reveal_strlit("market_video");
        reveal_strlit("poster");
        let p = kind_text(k) + ".svg"@;
        let q = kind_text(l) + ".svg"@;
        assert(file_text(a, k) =~= x + ("_"@ + p));
        assert(file_text(b, l) =~= y + ("_"@ + q));
        text::lemma_split_front(x, "_"@ + p, y, "_"@ + q);
        identity::law_uuid_text_is_injective(a.0, b.0);
        text::lemma_split_front("_"@, p, "_"@, q);
        assert(p.len() == kind_text(k).len() + ".svg"@.len());
        assert(q.len() == kind_text(l).len() + ".svg"@.len());
    }
    if url_text(a) == url_text(b) {
        let tail = ".svg"@;
        assert(url_text(a) =~= "/assets/"@ + (x + tail));
        assert(url_text(b) =~= "/assets/"@ + (y + tail));
        text::lemma_split_front("/assets/"@, x + tail, "/assets/"@, y + tail);
        text::lemma_split_front(x, tail, y, tail);
        identity::law_uuid_text_is_injective(a.0, b.0);
    }
}

/// No file name leaves its directory: there is no path separator in it.
pub proof fn law_file_names_hold_no_separator(job: JobId, kind: ArtifactKind, i: int)
    requires
        0 <= i < file_text(job, kind).len(),
    ensures
        file_text(job, kind)[i] != '/',
        file_text(job, kind)[i] != '\\',
{
    reveal_strlit("market_video");
    reveal_strlit("poster");
    reveal_strlit("_");
    reveal_strlit(".svg");
    let id = identity::uuid_text(job.0);
    let name = kind_text(kind);
    if i < 36 {
        assert(file_text(job, kind)[i] == id[i]);
        if !identity::is_hyphen(i) {
            let n = identity::nibble(job.0 as int, i - identity::hyphens_before(i));
            digest::lemma_hex_digit(n);
        }
    } else if i == 36 {
        assert(file_text(job, kind)[i] == "_"@[0]);
    } else if i < 37 + name.len() {
        assert(file_text(job, kind)[i] == name[i - 37]);
    } else {
        assert(file_text(job, kind)[i] == ".svg"@[i - 37 - name.len()]);
    }
}

} // verus!
