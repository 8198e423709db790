use vstd::prelude::*;
use crate::archive::{
    all_below, archivable, entries_for, relative_name, StoredFile, MAX_ENTRY_BYTES,
    MAX_ENTRY_NAME_CHARS,
};
use crate::clock::LocalDateTime;
use crate::storage::{daily_dir_text, dir_prefix, relative_path_text, stored_path_text};
use crate::text::{lemma_decimal_short, lemma_padded_injective, lemma_year_text_injective, padded};

verus! {

proof fn lemma_two_digits(n: nat)
    requires
        1 <= n <= 31,
    ensures
        padded(n, 2).len() == 2,
{
    lemma_decimal_short(n);
}

/// Two readings whose date texts agree fall on the same calendar day.
pub proof fn lemma_date_text_injective(a: LocalDateTime, b: LocalDateTime)
    requires
        a.wf(),
        b.wf(),
        a.date_text() == b.date_text(),
    ensures
        a.year == b.year,
        a.month == b.month,
        a.day == b.day,
{
    lemma_two_digits(a.month as nat);
    lemma_two_digits(a.day as nat);
    lemma_two_digits(b.month as nat);
    lemma_two_digits(b.day as nat);
    let ya = crate::text::year_text(a.year as int);
    let yb = crate::text::year_text(b.year as int);
    let t = a.date_text();
    let k = ya.len() as int;
    assert(t.len() == k + 6);
    assert(b.date_text().len() == yb.len() + 6);
    assert(yb.len() == k);
    assert(t.subrange(0, k) =~= ya);
    assert(b.date_text().subrange(0, k) =~= yb);
    assert(t.subrange(k + 1, k + 3) =~= padded(a.month as nat, 2));
    assert(b.date_text().subrange(k + 1, k + 3) =~= padded(b.month as nat, 2));
    assert(t.subrange(k + 4, k + 6) =~= padded(a.day as nat, 2));
    assert(b.date_text().subrange(k + 4, k + 6) =~= padded(b.day as nat, 2));
    lemma_year_text_injective(a.year as int, b.year as int);
    lemma_padded_injective(a.month as nat, b.month as nat, 2);
    lemma_padded_injective(a.day as nat, b.day as nat, 2);
}

/// Uploads on different calendar days go to different daily directories.
pub proof fn lemma_distinct_days_distinct_dirs(root: Seq<char>, a: LocalDateTime, b: LocalDateTime)
    requires
        a.wf(),
        b.wf(),
        a.year != b.year || a.month != b.month || a.day != b.day,
    ensures
        daily_dir_text(root, a) != daily_dir_text(root, b),
{
    if daily_dir_text(root, a) == daily_dir_text(root, b) {
        let n = dir_prefix(root).len() as int;
        assert(daily_dir_text(root, a).subrange(n, daily_dir_text(root, a).len() as int)
            =~= a.date_text());
        assert(daily_dir_text(root, b).subrange(n, daily_dir_text(root, b).len() as int)
            =~= b.date_text());
        lemma_date_text_injective(a, b);
    }
}

/// The archive entry name of a stored upload is exactly its storage path
/// relative to the root: `<YYYY-MM-DD>/<unix_secs>_<sanitized name>`.
pub proof fn lemma_entry_name_of_stored_path(root: Seq<char>, now: LocalDateTime, name: Seq<char>)
    ensures
        relative_name(root, stored_path_text(root, now, name)) == Some(relative_path_text(now, name)),
{
    let p = stored_path_text(root, now, name);
    let n = dir_prefix(root).len() as int;
    assert(p.subrange(0, n) =~= dir_prefix(root));
    assert(p.subrange(n, p.len() as int) =~= relative_path_text(now, name));
}

/// Files stored by uploads are archived in walk order, each under its
/// relative storage path and with exactly the bytes that were uploaded; when
/// those paths are distinct, short enough and the contents fit an entry, the
/// files form one archive.
pub proof fn lemma_archive_of_uploads(
    root: Seq<char>,
    files: Seq<StoredFile>,
    times: Seq<LocalDateTime>,
    names: Seq<Seq<char>>,
)
    requires
        times.len() == files.len(),
        names.len() == files.len(),
        forall|i: int| 0 <= i < files.len() ==> #[trigger] files[i].path@ == stored_path_text(root, times[i], names[i]),
    ensures
        all_below(root, files),
        entries_for(root, files) == Seq::new(files.len(), |i: int| (relative_path_text(times[i], names[i]), files[i].data@)),
        (forall|i: int, j: int| 0 <= i < j < files.len() ==> relative_path_text(times[i], names[i]) != relative_path_text(times[j], names[j]))
            && (forall|i: int| 0 <= i < files.len() ==> (#[trigger] relative_path_text(times[i], names[i])).len() <= MAX_ENTRY_NAME_CHARS)
            && (forall|i: int| 0 <= i < files.len() ==> (#[trigger] files[i]).data@.len() <= MAX_ENTRY_BYTES)
            ==> archivable(root, files),
{
    assert forall|i: int| 0 <= i < files.len() implies (#[trigger] relative_name(root, files[i].path@)) == Some(relative_path_text(times[i], names[i])) by {
        lemma_entry_name_of_stored_path(root, times[i], names[i]);
    }
    assert(entries_for(root, files) =~= Seq::new(files.len(), |i: int| (relative_path_text(times[i], names[i]), files[i].data@)));
}

} // verus!
