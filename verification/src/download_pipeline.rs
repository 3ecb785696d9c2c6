//! The download pipeline: a batch request becomes one entry per item, each
//! entry is numbered for the output template, AparatKids links are swapped
//! for their stream before download, and a group is cleaned up after its last
//! download.

use vstd::prelude::*;
use vstd::hash_map::StringHashMap;
use vstd::std_specs::convert::FromSpec;
use vstd::std_specs::convert::FromSpecImpl;
use vstd::string::*;

use crate::counters;
use crate::counters::GroupCounters;
use crate::text;

verus! {

/// The values an output file name template is filled with.
pub struct TemplateContext {
    pub values: StringHashMap<String>,
}

/// A download the user asked for. `F` is its format choice, `S` its
/// subtitle inventory and `O` its overrides, which the pipeline carries.
pub struct DownloadItem<F, S, O> {
    pub id: String,
    pub url: String,
    pub format: F,
    pub subtitle_inventory: Option<S>,
    pub overrides: Option<O>,
    pub template_context: TemplateContext,
}

/// A request to the download pipeline.
pub enum DownloadRequest<F, S, O> {
    /// Items to download together, as the group `group_id`.
    Batch { group_id: String, items: Vec<DownloadItem<F, S, O>> },
}

/// One download of a group.
pub struct DownloadEntry<F, S, O> {
    pub group_id: String,
    pub id: String,
    pub url: String,
    pub format: F,
    pub subtitle_inventory: Option<S>,
    pub overrides: Option<O>,
    pub template_context: TemplateContext,
}

/// The entry of `item` in the group `group_id`.
pub open spec fn entry_of<F, S, O>(item: DownloadItem<F, S, O>, group_id: String) -> DownloadEntry<
    F,
    S,
    O,
> {
    DownloadEntry {
        group_id: group_id,
        id: item.id,
        url: item.url,
        format: item.format,
        subtitle_inventory: item.subtitle_inventory,
        overrides: item.overrides,
        template_context: item.template_context,
    }
}

impl<F, S, O> FromSpecImpl<(DownloadItem<F, S, O>, String)> for DownloadEntry<F, S, O> {
    open spec fn obeys_from_spec() -> bool {
        true
    }

    open spec fn from_spec(v: (DownloadItem<F, S, O>, String)) -> Self {
        entry_of(v.0, v.1)
    }
}

impl<F, S, O> From<(DownloadItem<F, S, O>, String)> for DownloadEntry<F, S, O> {
    /// The entry of an item in a group: the item's own fields, with the group id.
    fn from(item: (DownloadItem<F, S, O>, String)) -> (r: Self) {
        DownloadEntry {
            group_id: item.1,
            id: item.0.id,
            url: item.0.url,
            format: item.0.format,
            subtitle_inventory: item.0.subtitle_inventory,
            overrides: item.0.overrides,
            template_context: item.0.template_context,
        }
    }
}

impl<F, S, O> DownloadEntry<F, S, O> {
    /// The group the entry belongs to.
    pub fn group_id(&self) -> (r: &String)
        ensures
            *r == self.group_id,
    {
        &self.group_id
    }

    /// The key that numbers entries within the group: the playlist id of the
    /// template values, where there is one.
    pub fn group_key(&self) -> (r: Option<&String>)
        ensures
            match r {
                Some(k) => self.template_context.values@.contains_key("playlist_id"@)
                    && *k == self.template_context.values@["playlist_id"@],
                None => !self.template_context.values@.contains_key("playlist_id"@),
            },
    {
        self.template_context.values.get("playlist_id")
    }

    /// Sets the `autonumber` template value, and, where the entry is numbered
    /// within its playlist, the `playlist_autonumber` one, in decimal.
    pub fn set_numbering(&mut self, autonumber: u64, group_autonumber: Option<u64>)
        ensures
            numbered(
                final(self).template_context.values@,
                old(self).template_context.values@,
                autonumber,
                group_autonumber,
            ),
            final(self).group_id == old(self).group_id,
            final(self).id == old(self).id,
            final(self).url == old(self).url,
            final(self).format == old(self).format,
            final(self).subtitle_inventory == old(self).subtitle_inventory,
            final(self).overrides == old(self).overrides,
    {
        proof {
            reveal_strlit("autonumber");
            reveal_strlit("playlist_autonumber");
            assert("autonumber"@.len() != "playlist_autonumber"@.len());
        }
        self.template_context.values.insert(
            String::from_str("autonumber"),
            text::u64_to_decimal(autonumber),
        );
        match group_autonumber {
            Some(g) => {
                self.template_context.values.insert(
                    String::from_str("playlist_autonumber"),
                    text::u64_to_decimal(g),
                );
            },
            None => {},
        }
    }
}

/// Whether `r` are the entries of the download request `req`, and `after`
/// the counts once they are made from `before`.
pub open spec fn download_expansion<F, S, O>(
    r: Seq<DownloadEntry<F, S, O>>,
    req: DownloadRequest<F, S, O>,
    before: Map<Seq<char>, usize>,
    after: Map<Seq<char>, usize>,
) -> bool {
    match req {
        DownloadRequest::Batch { group_id, items } => {
            &&& after == before.insert(group_id@, items@.len() as usize)
            &&& r == items@.map_values(|item: DownloadItem<F, S, O>| entry_of(item, group_id))
        },
    }
}

/// The entries of a download request, one per item, in order; the group is
/// counted with as many entries in flight as it has items.
pub fn expand_download_request<F, S, O>(
    req: DownloadRequest<F, S, O>,
    counters: &mut GroupCounters,
) -> (r: Vec<DownloadEntry<F, S, O>>)
    ensures
        download_expansion(r@, req, old(counters)@, final(counters)@),
{
    match req {
        DownloadRequest::Batch { group_id, items } => {
            let total: usize = items.len();
            counters.register(&group_id, total);
            let ghost all = items@;
            let mut rest = items;
            let mut out: Vec<DownloadEntry<F, S, O>> = Vec::new();
            while rest.len() > 0
                invariant
                    out@.len() <= all.len(),
                    rest@ == all.skip(out@.len() as int),
                    out@ == all.take(out@.len() as int).map_values(
                        |item: DownloadItem<F, S, O>| entry_of(item, group_id),
                    ),
                decreases rest@.len(),
            {
                let ghost n: int = out@.len() as int;
                let item = rest.remove(0);
                assert(item == all[n]);
                out.push(DownloadEntry::from((item, group_id.clone())));
                assert(all.skip(n).drop_first() =~= all.skip(n + 1));
                assert(all.take(n + 1).map_values(
                    |item: DownloadItem<F, S, O>| entry_of(item, group_id),
                ) =~= out@);
            }
            assert(all.take(all.len() as int) =~= all);
            out
        },
    }
}

/// How resolving an AparatKids link before its download or fetch ended.
pub enum ResolveOutcome<T> {
    Resolved(T),
    Failed(String),
    TimedOut,
}

/// The address an AparatKids download is made from: its stream, where it was
/// resolved; the link itself where resolving failed or took too long.
pub fn url_after_resolve(url: String, outcome: ResolveOutcome<String>) -> (r: String)
    ensures
        r == match outcome {
            ResolveOutcome::Resolved(stream) => stream,
            _ => url,
        },
{
    match outcome {
        ResolveOutcome::Resolved(stream) => stream,
        ResolveOutcome::Failed(_) => url,
        ResolveOutcome::TimedOut => url,
    }
}

/// The kinds of error a yt-dlp download ends with.
#[derive(PartialEq, Eq, Structural, Debug, Clone, Copy)]
pub enum YtdlpDownloadErrorKind {
    SpawnFailed,
    InvalidDiagnosticRules,
    EventStreamEnded,
    /// Any other error of the download.
    Other,
}

/// Whether a failed download is reported for diagnosis: where yt-dlp could
/// not start, its diagnostic rules are invalid, or its event stream ended.
pub fn should_report_to_sentry(err: &YtdlpDownloadErrorKind) -> (r: bool)
    ensures
        r == (*err != YtdlpDownloadErrorKind::Other),
{
    match err {
        YtdlpDownloadErrorKind::SpawnFailed => true,
        YtdlpDownloadErrorKind::InvalidDiagnosticRules => true,
        YtdlpDownloadErrorKind::EventStreamEnded => true,
        YtdlpDownloadErrorKind::Other => false,
    }
}

/// Once a batch of `items` downloads is expanded, its group is cleaned up by
/// the download that finishes last and by no earlier one, so exactly once,
/// after which it is no longer counted.
pub proof fn lemma_batch_group_cleaned_up_by_last_download(
    before: Map<Seq<char>, usize>,
    group_id: Seq<char>,
    items: nat,
    k: nat,
)
    requires
        k < items <= usize::MAX,
    ensures
        counters::completed(
            counters::completed_times(before.insert(group_id, items as usize), group_id, k),
            group_id,
        ).1 == (k + 1 == items),
        counters::cleanups(before.insert(group_id, items as usize), group_id, items) == 1,
        !counters::completed_times(before.insert(group_id, items as usize), group_id, items).contains_key(
            group_id,
        ),
{
    counters::lemma_group_cleanup_at_last_entry(before, group_id, items as usize, k);
    counters::lemma_group_cleaned_up_once(before, group_id, items as usize);
}

/// Each entry of a batch belongs to the batch's group and carries the
/// fields of its item unchanged, in the order of the items: its id, link,
/// format, subtitle inventory, overrides and template values.
pub proof fn law_download_entries_keep_item_fields<F, S, O>(
    r: Seq<DownloadEntry<F, S, O>>,
    req: DownloadRequest<F, S, O>,
    before: Map<Seq<char>, usize>,
    after: Map<Seq<char>, usize>,
)
    requires
        download_expansion(r, req, before, after),
    ensures
        match req {
            DownloadRequest::Batch { group_id, items } => {
                &&& r.len() == items@.len()
                &&& forall|i: int|
                    0 <= i < r.len() ==> {
                        &&& (#[trigger] r[i]).group_id == group_id
                        &&& r[i].id == items@[i].id
                        &&& r[i].url == items@[i].url
                        &&& r[i].format == items@[i].format
                        &&& r[i].subtitle_inventory == items@[i].subtitle_inventory
                        &&& r[i].overrides == items@[i].overrides
                        &&& r[i].template_context == items@[i].template_context
                    }
                &&& after.contains_key(group_id@) && after[group_id@] == items@.len()
            },
        },
{
    match req {
        DownloadRequest::Batch { group_id, items } => {
            assert(items@.len() == items.len());
        },
    }
}

/// The entry made from an item and a group id belongs to that group and
/// carries the item's fields unchanged.
pub proof fn law_entry_from_item_keeps_fields<F, S, O>(item: DownloadItem<F, S, O>, group_id: String)
    ensures
        <DownloadEntry<F, S, O> as FromSpec<(DownloadItem<F, S, O>, String)>>::obeys_from_spec(),
        ({
            let e = <DownloadEntry<F, S, O> as FromSpec<
                (DownloadItem<F, S, O>, String),
            >>::from_spec((item, group_id));
            &&& e.group_id == group_id
            &&& e.id == item.id
            &&& e.url == item.url
            &&& e.format == item.format
            &&& e.subtitle_inventory == item.subtitle_inventory
            &&& e.overrides == item.overrides
            &&& e.template_context == item.template_context
        }),
{
}

/// Whether the template values `new` are `values` once an entry is numbered
/// `autonumber`, and `group_autonumber` within its group where given: those
/// values are set to their decimal digits, and no other value changes.
pub open spec fn numbered(
    new: Map<Seq<char>, String>,
    values: Map<Seq<char>, String>,
    autonumber: u64,
    group_autonumber: Option<u64>,
) -> bool {
    &&& new.contains_key("autonumber"@)
    &&& new["autonumber"@]@ == text::decimal(autonumber as nat)
    &&& match group_autonumber {
        Some(g) => new.contains_key("playlist_autonumber"@) && new["playlist_autonumber"@]@
            == text::decimal(g as nat),
        None => new.contains_key("playlist_autonumber"@) == values.contains_key(
            "playlist_autonumber"@,
        ) && (values.contains_key("playlist_autonumber"@) ==> new["playlist_autonumber"@]
            == values["playlist_autonumber"@]),
    }
    &&& forall|k: Seq<char>|
        k != "autonumber"@ && k != "playlist_autonumber"@ ==> (#[trigger] new.contains_key(k)
            == values.contains_key(k)) && (values.contains_key(k) ==> new[k] == values[k])
}

/// Numbering an entry leaves the key that numbers it within its group as it was.
pub proof fn lemma_numbering_keeps_group_key(
    new: Map<Seq<char>, String>,
    values: Map<Seq<char>, String>,
    autonumber: u64,
    group_autonumber: Option<u64>,
)
    requires
        numbered(new, values, autonumber, group_autonumber),
    ensures
        new.contains_key("playlist_id"@) == values.contains_key("playlist_id"@),
        values.contains_key("playlist_id"@) ==> new["playlist_id"@] == values["playlist_id"@],
{
    reveal_strlit("playlist_id");
    reveal_strlit("autonumber");
    reveal_strlit("playlist_autonumber");
    assert("playlist_id"@[0] != "autonumber"@[0]);
    assert("playlist_id"@.len() != "playlist_autonumber"@.len());
    assert(new.contains_key("playlist_id"@) == values.contains_key("playlist_id"@));
}

} // verus!
