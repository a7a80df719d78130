//! Download requests and locator resolution.
//!
//! A request names a remote base locator and a destination file, and is
//! immutable once enqueued.  Before the fetch starts it is resolved to
//! exactly one final locator: images get a size suffix built from the size
//! hint (or a plain download suffix without one), videos get the fixed
//! video download suffix.  Locators, names and paths are byte strings.

use vstd::prelude::*;

verus! {

/// Whether an item is an image (or motion photo) or a video.
#[derive(Clone, Copy, PartialEq, Eq, Structural, Debug)]
pub enum MediaKind {
    Image,
    Video,
}

/// One item to download: an opaque (locator, destination name, size hints)
/// tuple handed over by the selector.
pub struct DownloadRequest {
    /// Base locator (URL) of the remote object, before any suffix.
    pub locator: Vec<u8>,
    /// File name under the download directory to materialize into.
    pub destination_name: Vec<u8>,
    /// Pixel dimensions, when the catalog reported them.
    pub size_hint: Option<(u64, u64)>,
    /// Image or video.
    pub kind: MediaKind,
    /// Creation day of the item, as a day number, when reported.
    pub logical_timestamp: Option<i64>,
}

/// The mathematical shape of a [`DownloadRequest`].
pub struct RequestModel {
    pub locator: Seq<u8>,
    pub destination_name: Seq<u8>,
    pub size_hint: Option<(u64, u64)>,
    pub kind: MediaKind,
    pub logical_timestamp: Option<i64>,
}

impl View for DownloadRequest {
    type V = RequestModel;

    open spec fn view(&self) -> RequestModel {
        RequestModel {
            locator: self.locator@,
            destination_name: self.destination_name@,
            size_hint: self.size_hint,
            kind: self.kind,
            logical_timestamp: self.logical_timestamp,
        }
    }
}

impl DeepView for DownloadRequest {
    type V = RequestModel;

    open spec fn deep_view(&self) -> RequestModel {
        self.view()
    }
}

/// The decimal ASCII digits of `n`, most significant first.
pub open spec fn dec_digits(n: nat) -> Seq<u8>
    decreases n,
{
    if n < 10 {
        seq![(48 + n) as u8]
    } else {
        dec_digits(n / 10) + seq![(48 + n % 10) as u8]
    }
}

/// Appends the decimal digits of `n` to `out`.
pub fn push_decimal(out: &mut Vec<u8>, n: u64)
    ensures
        final(out)@ == old(out)@ + dec_digits(n as nat),
    decreases n,
{
    if n >= 10 {
        push_decimal(out, n / 10);
        out.push(48 + (n % 10) as u8);
        assert(out@ =~= old(out)@ + dec_digits(n as nat));
    } else {
        out.push(48 + n as u8);
        assert(out@ =~= old(out)@ + dec_digits(n as nat));
    }
}

/// Appends all of `src` to `out`.
pub fn extend_bytes(out: &mut Vec<u8>, src: &Vec<u8>)
    ensures
        final(out)@ == old(out)@ + src@,
{
    let mut i: usize = 0;
    while i < src.len()
        invariant
            0 <= i <= src.len(),
            out@ == old(out)@ + src@.take(i as int),
        decreases src.len() - i,
    {
        out.push(src[i]);
        proof {
            assert(old(out)@ + src@.take(i + 1 as int) =~= (old(out)@ + src@.take(i as int)).push(
                src@[i as int],
            ));
        }
        i = i + 1;
    }
    proof {
        assert(src@.take(src@.len() as int) =~= src@);
    }
}

/// A fresh copy of a byte string.
pub fn copy_bytes(src: &Vec<u8>) -> (r: Vec<u8>)
    ensures
        r@ == src@,
{
    let mut out: Vec<u8> = Vec::new();
    extend_bytes(&mut out, src);
    proof {
        assert(Seq::<u8>::empty() + src@ =~= src@);
    }
    out
}

/// The suffix appended for an image with size hint `(w, h)`: `=w<w>-h<h>`.
pub open spec fn size_suffix(w: u64, h: u64) -> Seq<u8> {
    seq![61u8, 119u8] + dec_digits(w as nat) + seq![45u8, 104u8] + dec_digits(h as nat)
}

/// The suffix appended for an image without a size hint: `=d`.
pub open spec fn plain_suffix() -> Seq<u8> {
    seq![61u8, 100u8]
}

/// The suffix appended for a video: `=dv`.
pub open spec fn video_suffix() -> Seq<u8> {
    seq![61u8, 100u8, 118u8]
}

/// The one final locator a request resolves to.
pub open spec fn spec_resolve_locator(req: RequestModel) -> Seq<u8> {
    match req.kind {
        MediaKind::Image => match req.size_hint {
            Option::Some((w, h)) => req.locator + size_suffix(w, h),
            Option::None => req.locator + plain_suffix(),
        },
        MediaKind::Video => req.locator + video_suffix(),
    }
}

impl DownloadRequest {
    /// Resolve this request to the locator used for the GET: the base
    /// locator with the suffix its kind and size hint call for.
    pub fn resolve_locator(&self) -> (r: Vec<u8>)
        ensures
            r@ == spec_resolve_locator(self@),
    {
        let mut out = copy_bytes(&self.locator);
        match self.kind {
            MediaKind::Image => match self.size_hint {
                Option::Some((w, h)) => {
                    out.push(61);
                    out.push(119);
                    push_decimal(&mut out, w);
                    out.push(45);
                    out.push(104);
                    push_decimal(&mut out, h);
                    proof {
                        assert(out@ =~= spec_resolve_locator(self@));
                    }
                },
                Option::None => {
                    out.push(61);
                    out.push(100);
                    proof {
                        assert(out@ =~= spec_resolve_locator(self@));
                    }
                },
            },
            MediaKind::Video => {
                out.push(61);
                out.push(100);
                out.push(118);
                proof {
                    assert(out@ =~= spec_resolve_locator(self@));
                }
            },
        }
        out
    }
}

/// The destination path of `name` under `dir`: `dir`, a separator, `name`.
pub open spec fn spec_dest_path(dir: Seq<u8>, name: Seq<u8>) -> Seq<u8> {
    dir + seq![47u8] + name
}

/// Joins a directory and a file name into a destination path.
pub fn dest_path(dir: &Vec<u8>, name: &Vec<u8>) -> (r: Vec<u8>)
    ensures
        r@ == spec_dest_path(dir@, name@),
{
    let mut out = copy_bytes(dir);
    out.push(47);
    extend_bytes(&mut out, name);
    proof {
        assert(out@ =~= spec_dest_path(dir@, name@));
    }
    out
}

/// The transient artifact beside `path` during transfer: `path` plus
/// `.partial`.
pub open spec fn spec_partial_path(path: Seq<u8>) -> Seq<u8> {
    path + seq![46u8, 112u8, 97u8, 114u8, 116u8, 105u8, 97u8, 108u8]
}

/// The path of the in-progress file for a destination path.
pub fn partial_path(path: &Vec<u8>) -> (r: Vec<u8>)
    ensures
        r@ == spec_partial_path(path@),
{
    let mut out = copy_bytes(path);
    out.push(46);
    out.push(112);
    out.push(97);
    out.push(114);
    out.push(116);
    out.push(105);
    out.push(97);
    out.push(108);
    proof {
        assert(out@ =~= spec_partial_path(path@));
    }
    out
}

} // verus!
