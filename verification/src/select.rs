//! Selection of catalog records to download.
//!
//! The remote catalog is enumerated elsewhere; what arrives here is one
//! page of records, each a loose bundle of optional attributes.  The
//! decisions live here: a record is taken only when it carries a
//! locator, a file name and a creation day, falls inside the configured
//! day window, and is recognizably an image (with dimensions) or a
//! video; a record before the window's lower bound also ends the paging,
//! since the catalog arrives newest first.

use crate::request::DownloadRequest;
use crate::request::MediaKind;
use crate::request::RequestModel;
use crate::request::copy_bytes;
use vstd::prelude::*;

verus! {

/// One record of the remote catalog, as handed over by the enumerator:
/// every attribute the selection reads, each possibly missing.
pub struct CatalogRecord {
    /// The base locator of the media object.
    pub base_url: Option<Vec<u8>>,
    /// The file name the catalog gives the object.
    pub filename: Option<Vec<u8>>,
    /// The creation day of the object, as a day number; `None` when the
    /// record carries no metadata or no creation time.
    pub creation_day: Option<i64>,
    /// Pixel width, when reported.
    pub width: Option<u64>,
    /// Pixel height, when reported.
    pub height: Option<u64>,
    /// Whether the record carries photo metadata.
    pub has_photo: bool,
    /// Whether the record carries video metadata.
    pub has_video: bool,
}

/// The mathematical shape of a [`CatalogRecord`].
pub struct CatalogRecordModel {
    pub base_url: Option<Seq<u8>>,
    pub filename: Option<Seq<u8>>,
    pub creation_day: Option<i64>,
    pub width: Option<u64>,
    pub height: Option<u64>,
    pub has_photo: bool,
    pub has_video: bool,
}

impl View for CatalogRecord {
    type V = CatalogRecordModel;

    open spec fn view(&self) -> CatalogRecordModel {
        CatalogRecordModel {
            base_url: match &self.base_url {
                Option::Some(b) => Option::Some(b@),
                Option::None => Option::None,
            },
            filename: match &self.filename {
                Option::Some(b) => Option::Some(b@),
                Option::None => Option::None,
            },
            creation_day: self.creation_day,
            width: self.width,
            height: self.height,
            has_photo: self.has_photo,
            has_video: self.has_video,
        }
    }
}

impl DeepView for CatalogRecord {
    type V = CatalogRecordModel;

    open spec fn deep_view(&self) -> CatalogRecordModel {
        self.view()
    }
}

/// Whether a creation day falls inside the configured window: not before
/// `from` (when given) and not after `to` (when given).
pub open spec fn spec_within_window(day: i64, from: Option<i64>, to: Option<i64>) -> bool {
    &&& match from {
        Option::Some(f) => day >= f,
        Option::None => true,
    }
    &&& match to {
        Option::Some(t) => day <= t,
        Option::None => true,
    }
}

/// Decides whether a creation day falls inside the day window.
pub fn within_window(day: i64, from: Option<i64>, to: Option<i64>) -> (r: bool)
    ensures
        r == spec_within_window(day, from, to),
{
    let from_ok = match from {
        Option::Some(f) => day >= f,
        Option::None => true,
    };
    let to_ok = match to {
        Option::Some(t) => day <= t,
        Option::None => true,
    };
    from_ok && to_ok
}

/// What the selection decides for one record.
pub enum Selection {
    /// Take it: the download request to enqueue.
    Selected(DownloadRequest),
    /// Outside the day window; when the record lies before the window's
    /// lower bound, paging stops as well.
    SkippedWindow { stop_paging: bool },
    /// The record misses an attribute the selection needs, or is neither
    /// clearly an image nor clearly a video.
    Unexpected,
}

/// The mathematical shape of a [`Selection`].
pub enum SelectionModel {
    Selected(RequestModel),
    SkippedWindow { stop_paging: bool },
    Unexpected,
}

impl View for Selection {
    type V = SelectionModel;

    open spec fn view(&self) -> SelectionModel {
        match self {
            Selection::Selected(req) => SelectionModel::Selected(req@),
            Selection::SkippedWindow { stop_paging } => (SelectionModel::SkippedWindow {
                stop_paging: *stop_paging,
            }),
            Selection::Unexpected => SelectionModel::Unexpected,
        }
    }
}

/// The selection rule for one record.
pub open spec fn spec_classify(
    rec: CatalogRecordModel,
    from: Option<i64>,
    to: Option<i64>,
) -> SelectionModel {
    match (rec.base_url, rec.filename, rec.creation_day) {
        (Option::Some(url), Option::Some(name), Option::Some(day)) => {
            if !spec_within_window(day, from, to) {
                SelectionModel::SkippedWindow {
                    stop_paging: match from {
                        Option::Some(f) => day < f,
                        Option::None => false,
                    },
                }
            } else if rec.has_photo && !rec.has_video && rec.width is Some && rec.height is Some {
                SelectionModel::Selected(
                    RequestModel {
                        locator: url,
                        destination_name: name,
                        size_hint: Option::Some((rec.width->0, rec.height->0)),
                        kind: MediaKind::Image,
                        logical_timestamp: Option::Some(day),
                    },
                )
            } else if rec.has_video && !rec.has_photo {
                SelectionModel::Selected(
                    RequestModel {
                        locator: url,
                        destination_name: name,
                        size_hint: Option::None,
                        kind: MediaKind::Video,
                        logical_timestamp: Option::Some(day),
                    },
                )
            } else {
                SelectionModel::Unexpected
            }
        },
        _ => SelectionModel::Unexpected,
    }
}

/// Classifies one catalog record against the day window.
pub fn classify(rec: &CatalogRecord, from: Option<i64>, to: Option<i64>) -> (r: Selection)
    ensures
        r@ == spec_classify(rec@, from, to),
{
    match (&rec.base_url, &rec.filename, &rec.creation_day) {
        (Option::Some(url), Option::Some(name), Option::Some(day)) => {
            let day = *day;
            if !within_window(day, from, to) {
                let stop_paging = match from {
                    Option::Some(f) => day < f,
                    Option::None => false,
                };
                Selection::SkippedWindow { stop_paging }
            } else if rec.has_photo && !rec.has_video && rec.width.is_some()
                && rec.height.is_some() {
                let w = rec.width.unwrap();
                let h = rec.height.unwrap();
                Selection::Selected(
                    DownloadRequest {
                        locator: copy_bytes(url),
                        destination_name: copy_bytes(name),
                        size_hint: Option::Some((w, h)),
                        kind: MediaKind::Image,
                        logical_timestamp: Option::Some(day),
                    },
                )
            } else if rec.has_video && !rec.has_photo {
                Selection::Selected(
                    DownloadRequest {
                        locator: copy_bytes(url),
                        destination_name: copy_bytes(name),
                        size_hint: Option::None,
                        kind: MediaKind::Video,
                        logical_timestamp: Option::Some(day),
                    },
                )
            } else {
                Selection::Unexpected
            }
        },
        _ => Selection::Unexpected,
    }
}

/// The requests one page of records yields, in record order.
pub open spec fn spec_selected(
    records: Seq<CatalogRecordModel>,
    from: Option<i64>,
    to: Option<i64>,
) -> Seq<RequestModel>
    decreases records.len(),
{
    if records.len() == 0 {
        Seq::empty()
    } else {
        spec_selected(records.drop_last(), from, to) + match spec_classify(
            records.last(),
            from,
            to,
        ) {
            SelectionModel::Selected(req) => seq![req],
            _ => Seq::empty(),
        }
    }
}

/// Whether some record of the page lies before the window's lower bound,
/// which ends the paging.
pub open spec fn spec_stop_paging(
    records: Seq<CatalogRecordModel>,
    from: Option<i64>,
    to: Option<i64>,
) -> bool
    decreases records.len(),
{
    if records.len() == 0 {
        false
    } else {
        spec_stop_paging(records.drop_last(), from, to) || (spec_classify(
            records.last(),
            from,
            to,
        ) matches SelectionModel::SkippedWindow { stop_paging: true })
    }
}

/// Walks one page of catalog records: collects the selected requests in
/// order, and drops the page token when a record before the window's
/// lower bound shows the rest of the catalog is too old.
pub fn select_from_records(
    records: &Vec<CatalogRecord>,
    next_page_token: Option<Vec<u8>>,
    from: Option<i64>,
    to: Option<i64>,
) -> (r: (Option<Vec<u8>>, Vec<DownloadRequest>))
    ensures
        r.1.deep_view() == spec_selected(records.deep_view(), from, to),
        spec_stop_paging(records.deep_view(), from, to) ==> r.0 is None,
        !spec_stop_paging(records.deep_view(), from, to) ==> r.0 == next_page_token,
{
    let mut selection: Vec<DownloadRequest> = Vec::new();
    let mut stop: bool = false;
    let mut i: usize = 0;
    let ghost recs = records.deep_view();
    proof {
        assert(recs.take(0) =~= Seq::<CatalogRecordModel>::empty());
    }
    while i < records.len()
        invariant
            0 <= i <= records.len(),
            recs == records.deep_view(),
            recs.len() == records.len(),
            selection.deep_view() =~= spec_selected(recs.take(i as int), from, to),
            stop == spec_stop_paging(recs.take(i as int), from, to),
        decreases records.len() - i,
    {
        let ghost pre = selection.deep_view();
        match classify(&records[i], from, to) {
            Selection::Selected(req) => {
                selection.push(req);
            },
            Selection::SkippedWindow { stop_paging } => {
                if stop_paging {
                    stop = true;
                }
            },
            Selection::Unexpected => {},
        }
        proof {
            assert(recs.take(i + 1 as int).drop_last() =~= recs.take(i as int));
            assert(recs.take(i + 1 as int).last() == recs[i as int]);
            assert(recs[i as int] == records[i as int]@);
            if spec_classify(recs[i as int], from, to) is Selected {
                assert(selection.deep_view() =~= pre.push(
                    spec_classify(recs[i as int], from, to)->Selected_0,
                ));
            }
        }
        i = i + 1;
    }
    proof {
        assert(recs.take(records@.len() as int) =~= recs);
    }
    if stop {
        (Option::None, selection)
    } else {
        (next_page_token, selection)
    }
}

} // verus!
