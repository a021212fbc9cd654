//! The file list of a session: allocating storage keys, taking files out, and
//! what holds of both.
use super::dto::{
    allowed_kind, bad_sha_text, check_sha256, files_view, is_sha256, is_valid_kind,
    lemma_hex_is_ascii, safe_filename, sanitize_filename, AllocateFileItemIn, AllocateFileItemOut,
    FileModel, SessionFile,
};
use crate::error::{AppError, ErrorCode, Problem};
use crate::text::{debug_quoted, debug_text, is_hex, join3};
use vstd::prelude::*;
use vstd::string::*;
use vstd::utf8::{
    decode_utf8, encode_utf8, encode_utf8_decode_utf8, encode_utf8_valid_utf8, is_ascii_chars,
    is_ascii_chars_encode_utf8, is_char_boundary, is_char_boundary_iff_not_is_continuation_byte,
    is_continuation_byte,
};

verus! {

// ---------------------------------------------------------------------------
// Looking a file up
// ---------------------------------------------------------------------------

/// The first file with this client reference.
pub open spec fn position_of(files: Seq<FileModel>, client_ref: Seq<char>) -> Option<int>
    decreases files.len(),
{
    if files.len() == 0 {
        None
    } else {
        match position_of(files.drop_last(), client_ref) {
            Some(i) => Some(i),
            None => if files.last().client_ref == client_ref {
                Some(files.len() - 1)
            } else {
                None
            },
        }
    }
}

/// Position and absence in terms of the list itself.
pub proof fn lemma_position_of(files: Seq<FileModel>, client_ref: Seq<char>)
    ensures
        match position_of(files, client_ref) {
            Some(i) => {
                &&& 0 <= i < files.len()
                &&& files[i].client_ref == client_ref
                &&& forall|j: int| 0 <= j < i ==> (#[trigger] files[j]).client_ref != client_ref
            },
            None => forall|j: int|
                0 <= j < files.len() ==> (#[trigger] files[j]).client_ref != client_ref,
        },
    decreases files.len(),
{
    if files.len() > 0 {
        let rest = files.drop_last();
        lemma_position_of(rest, client_ref);
        assert forall|j: int| 0 <= j < rest.len() implies files[j] == rest[j] by {}
    }
}

/// Where the first file with this client reference stands.
pub fn find_file(files: &Vec<SessionFile>, client_ref: &str) -> (r: Option<usize>)
    ensures
        match r {
            Some(i) => position_of(files_view(files@), client_ref@) == Some(i as int),
            None => position_of(files_view(files@), client_ref@) is None,
        },
        r matches Some(i) ==> i < files@.len(),
{
    let ghost model = files_view(files@);
    let mut i: usize = 0;
    assert(model.take(0) =~= Seq::<FileModel>::empty());
    while i < files.len()
        invariant
            i <= files@.len(),
            model == files_view(files@),
            position_of(model.take(i as int), client_ref@) is None,
        decreases files@.len() - i,
    {
        assert(model.take(i + 1).drop_last() =~= model.take(i as int));
        if crate::text::same(files[i].client_ref.as_str(), client_ref) {
            proof {
                lemma_position_grows(model.take(i + 1), model.skip(i + 1), client_ref@);
                assert(model.take(i + 1) + model.skip(i + 1) =~= model);
            }
            return Some(i);
        }
        i = i + 1;
    }
    assert(model.take(i as int) =~= model);
    None
}

/// Files appended behind leave the position of an earlier one alone.
proof fn lemma_position_grows(files: Seq<FileModel>, more: Seq<FileModel>, client_ref: Seq<char>)
    requires
        position_of(files, client_ref) is Some,
    ensures
        position_of(files + more, client_ref) == position_of(files, client_ref),
    decreases more.len(),
{
    if more.len() == 0 {
        assert(files + more =~= files);
    } else {
        lemma_position_grows(files, more.drop_last(), client_ref);
        assert((files + more).drop_last() =~= files + more.drop_last());
    }
}

/// No two files share a client reference.
pub open spec fn distinct_refs(files: Seq<FileModel>) -> bool {
    forall|i: int, j: int|
        0 <= i < j < files.len() ==> (#[trigger] files[i]).client_ref != (
        #[trigger] files[j]).client_ref
}

// ---------------------------------------------------------------------------
// Storage keys
// ---------------------------------------------------------------------------

/// The first sixteen bytes of a digest, as text.
pub open spec fn sha_head(sha: Seq<char>) -> Seq<char> {
    decode_utf8(encode_utf8(sha).subrange(0, 16))
}

/// The storage key of a file: the session's prefix, the head of the digest, an
/// underscore and the safe form of the file's name.
pub open spec fn tmp_key_of(prefix: Seq<char>, sha: Seq<char>, filename: Seq<char>) -> Seq<char> {
    prefix + sha_head(sha) + "_"@ + safe_filename(filename)
}

/// Derives the storage key of a file. The digest must be at least sixteen bytes
/// long, with a character ending there.
pub fn build_tmp_key(tmp_prefix: &str, sha: &str, original_filename: &str) -> (r: String)
    requires
        encode_utf8(sha@).len() >= 16,
        is_char_boundary(encode_utf8(sha@), 16),
    ensures
        r@ == tmp_key_of(tmp_prefix@, sha@, original_filename@),
{
    let safe = sanitize_filename(original_filename);
    let (head, _) = sha.split_at(16);
    proof {
        encode_utf8_decode_utf8(head@);
    }
    let mut out = tmp_prefix.to_owned();
    out.append(head);
    out.append("_");
    out.append(safe.as_str());
    out
}

/// A SHA-256 digest can be cut after sixteen bytes, and its head is its first
/// sixteen digits.
pub proof fn lemma_sha_head(sha: Seq<char>)
    requires
        is_sha256(sha),
    ensures
        encode_utf8(sha).len() >= 16,
        is_char_boundary(encode_utf8(sha), 16),
        sha_head(sha) == sha.take(16),
{
    lemma_hex_is_ascii(sha);
    is_ascii_chars_encode_utf8(sha);
    encode_utf8_valid_utf8(sha);
    let bytes = encode_utf8(sha);
    assert(is_hex(sha[16]));
    assert(bytes[16] == sha[16] as u8);
    assert(!is_continuation_byte(bytes[16]));
    is_char_boundary_iff_not_is_continuation_byte(bytes, 16);
    let head = sha.take(16);
    assert(is_ascii_chars(head));
    is_ascii_chars_encode_utf8(head);
    assert(encode_utf8(head) =~= bytes.subrange(0, 16));
    encode_utf8_decode_utf8(head);
}

// ---------------------------------------------------------------------------
// Allocating
// ---------------------------------------------------------------------------

/// What is wrong with a file that a client announces, the first thing first.
pub open spec fn item_problem(item: AllocateFileItemIn) -> Option<Problem> {
    if !allowed_kind(item.kind@) {
        Some(
            (
                ErrorCode::BizUploadSessionBadType,
                "kind "@ + debug_quoted(item.kind@) + " 不在白名单（仅 drawing / 3d_model）"@,
            ),
        )
    } else if !is_sha256(item.content_sha256@) {
        Some((ErrorCode::ValidationError, bad_sha_text(item.content_sha256@)))
    } else if item.original_filename@.len() == 0 {
        Some((ErrorCode::ValidationError, "original_filename 不可为空"@))
    } else if item.file_size <= 0 {
        Some((ErrorCode::ValidationError, "file_size 必须 > 0"@))
    } else {
        None
    }
}

/// The entry of a newly announced file.
pub open spec fn pending_file(prefix: Seq<char>, item: AllocateFileItemIn) -> FileModel {
    FileModel {
        client_ref: item.client_ref@,
        kind: item.kind@,
        original_filename: item.original_filename@,
        file_size: item.file_size,
        content_type: item.content_type@,
        content_sha256: item.content_sha256@,
        tmp_key: tmp_key_of(prefix, item.content_sha256@, item.original_filename@),
        status: "pending"@,
        etag: None,
        uploaded_at: None,
    }
}

/// What a client is told about an announced file: its reference and its key.
pub type Slot = (Seq<char>, Seq<char>);

/// The file list and the answers after an allocation.
pub struct Allocation {
    pub files: Seq<FileModel>,
    pub slots: Seq<Slot>,
}

/// One announced file: a known reference gets its key back, a new one is
/// checked and entered.
pub open spec fn allocate_one(
    prefix: Seq<char>,
    a: Allocation,
    item: AllocateFileItemIn,
) -> Result<Allocation, Problem> {
    match position_of(a.files, item.client_ref@) {
        Some(i) => Ok(
            Allocation {
                files: a.files,
                slots: a.slots.push((a.files[i].client_ref, a.files[i].tmp_key)),
            },
        ),
        None => match item_problem(item) {
            Some(p) => Err(p),
            None => {
                let file = pending_file(prefix, item);
                Ok(
                    Allocation {
                        files: a.files.push(file),
                        slots: a.slots.push((file.client_ref, file.tmp_key)),
                    },
                )
            },
        },
    }
}

/// The announced files one after the other, until the first problem.
pub open spec fn allocated(
    prefix: Seq<char>,
    files: Seq<FileModel>,
    items: Seq<AllocateFileItemIn>,
) -> Result<Allocation, Problem>
    decreases items.len(),
{
    if items.len() == 0 {
        Ok(Allocation { files, slots: Seq::empty() })
    } else {
        match allocated(prefix, files, items.drop_last()) {
            Err(p) => Err(p),
            Ok(a) => allocate_one(prefix, a, items.last()),
        }
    }
}

/// A problem with an earlier file is the problem of the whole request.
proof fn lemma_problem_stays(
    prefix: Seq<char>,
    files: Seq<FileModel>,
    items: Seq<AllocateFileItemIn>,
    k: int,
)
    requires
        0 <= k <= items.len(),
        allocated(prefix, files, items.take(k)) is Err,
    ensures
        allocated(prefix, files, items) == allocated(prefix, files, items.take(k)),
    decreases items.len(),
{
    if k == items.len() {
        assert(items.take(k) =~= items);
    } else {
        assert(items.drop_last().take(k) =~= items.take(k));
        lemma_problem_stays(prefix, files, items.drop_last(), k);
    }
}

/// What the answers say, as pairs of texts.
pub open spec fn slots_view(items: Seq<AllocateFileItemOut>) -> Seq<Slot> {
    items.map_values(|o: AllocateFileItemOut| (o.client_ref@, o.tmp_key@))
}

/// Checks one announced file that has no entry yet.
fn check_item(item: &AllocateFileItemIn) -> (r: Result<(), AppError>)
    ensures
        match item_problem(*item) {
            Some(p) => r matches Err(e) && e.says(p.0, p.1),
            None => r is Ok,
        },
{
    if !is_valid_kind(item.kind.as_str()) {
        let message = join3(
            "kind ",
            debug_text(item.kind.as_str()).as_str(),
            " 不在白名单（仅 drawing / 3d_model）",
        );
        return Err(AppError::biz(ErrorCode::BizUploadSessionBadType, message.as_str()));
    }
    match check_sha256(item.content_sha256.as_str()) {
        Err(e) => {
            return Err(e);
        },
        Ok(()) => {},
    }
    if item.original_filename.as_str().is_empty() {
        return Err(AppError::validation("original_filename 不可为空"));
    }
    if item.file_size <= 0 {
        return Err(AppError::validation("file_size 必须 > 0"));
    }
    Ok(())
}

/// Enters the announced files into the list and answers each with its key. A
/// reference that has an entry already gets the key of that entry. Where a file
/// is refused, the request is.
pub fn allocate_into(
    tmp_prefix: &str,
    files: Vec<SessionFile>,
    items: &Vec<AllocateFileItemIn>,
) -> (r: Result<(Vec<SessionFile>, Vec<AllocateFileItemOut>), AppError>)
    ensures
        match allocated(tmp_prefix@, files_view(files@), items@) {
            Ok(a) => {
                &&& r matches Ok((fs, outs))
                &&& files_view(fs@) == a.files
                &&& slots_view(outs@) == a.slots
            },
            Err(p) => r matches Err(e) && e.says(p.0, p.1),
        },
{
    let ghost start = files_view(files@);
    let mut list: Vec<SessionFile> = files;
    let mut outs: Vec<AllocateFileItemOut> = Vec::new();
    let mut k: usize = 0;
    assert(items@.take(0) =~= Seq::<AllocateFileItemIn>::empty());
    assert(slots_view(outs@) =~= Seq::<Slot>::empty());
    while k < items.len()
        invariant
            k <= items@.len(),
            start == files_view(files@),
            allocated(tmp_prefix@, start, items@.take(k as int)) == Ok::<Allocation, Problem>(
                Allocation { files: files_view(list@), slots: slots_view(outs@) },
            ),
        decreases items@.len() - k,
    {
        let item = &items[k];
        let ghost before = Allocation { files: files_view(list@), slots: slots_view(outs@) };
        let ghost old_list = list@;
        let ghost old_outs = outs@;
        assert(items@.take(k + 1).drop_last() =~= items@.take(k as int));
        assert(items@.take(k + 1).last() == *item);
        match find_file(&list, item.client_ref.as_str()) {
            Some(i) => {
                let out = AllocateFileItemOut {
                    client_ref: list[i].client_ref.clone(),
                    tmp_key: list[i].tmp_key.clone(),
                };
                outs.push(out);
                assert(slots_view(outs@) =~= before.slots.push(
                    (before.files[i as int].client_ref, before.files[i as int].tmp_key),
                ));
            },
            None => {
                match check_item(item) {
                    Err(e) => {
                        proof {
                            lemma_problem_stays(tmp_prefix@, start, items@, k + 1);
                        }
                        return Err(e);
                    },
                    Ok(()) => {},
                }
                proof {
                    lemma_sha_head(item.content_sha256@);
                }
                let tmp_key = build_tmp_key(
                    tmp_prefix,
                    item.content_sha256.as_str(),
                    item.original_filename.as_str(),
                );
                let file = SessionFile {
                    client_ref: item.client_ref.clone(),
                    kind: item.kind.clone(),
                    original_filename: item.original_filename.clone(),
                    file_size: item.file_size,
                    content_type: item.content_type.clone(),
                    content_sha256: item.content_sha256.clone(),
                    tmp_key: tmp_key.clone(),
                    status: "pending".to_owned(),
                    etag: None,
                    uploaded_at: None,
                };
                let ghost entry = file@;
                assert(entry == pending_file(tmp_prefix@, *item));
                let out = AllocateFileItemOut { client_ref: item.client_ref.clone(), tmp_key };
                list.push(file);
                outs.push(out);
                assert(files_view(list@) =~= before.files.push(entry));
                assert(slots_view(outs@) =~= before.slots.push((entry.client_ref, entry.tmp_key)));
            },
        }
        k = k + 1;
    }
    assert(items@.take(k as int) =~= items@);
    Ok((list, outs))
}

// ---------------------------------------------------------------------------
// Taking files out
// ---------------------------------------------------------------------------

/// The file list after some files were taken out, and those files, in the order
/// in which they were named.
pub struct Removal {
    pub files: Seq<FileModel>,
    pub gone: Seq<FileModel>,
}

/// Takes the first file with this reference out, where there is one.
pub open spec fn remove_one(r: Removal, client_ref: Seq<char>) -> Removal {
    match position_of(r.files, client_ref) {
        Some(i) => Removal { files: r.files.remove(i), gone: r.gone.push(r.files[i]) },
        None => r,
    }
}

/// The named files taken out one after the other; a reference without a file is
/// passed over.
pub open spec fn removal(files: Seq<FileModel>, refs: Seq<Seq<char>>) -> Removal
    decreases refs.len(),
{
    if refs.len() == 0 {
        Removal { files, gone: Seq::empty() }
    } else {
        remove_one(removal(files, refs.drop_last()), refs.last())
    }
}

/// The views of a list of texts.
pub open spec fn texts(v: Seq<String>) -> Seq<Seq<char>> {
    v.map_values(|s: String| s@)
}

/// Takes the named files out of the list and gives them back in the order in
/// which they were named.
pub fn remove_from(files: Vec<SessionFile>, client_refs: &Vec<String>) -> (r: (
    Vec<SessionFile>,
    Vec<SessionFile>,
))
    ensures
        files_view(r.0@) == removal(files_view(files@), texts(client_refs@)).files,
        files_view(r.1@) == removal(files_view(files@), texts(client_refs@)).gone,
{
    let ghost start = files_view(files@);
    let ghost names = texts(client_refs@);
    let mut list: Vec<SessionFile> = files;
    let mut gone: Vec<SessionFile> = Vec::new();
    let mut k: usize = 0;
    assert(names.take(0) =~= Seq::<Seq<char>>::empty());
    assert(files_view(gone@) =~= Seq::<FileModel>::empty());
    while k < client_refs.len()
        invariant
            k <= client_refs@.len(),
            names == texts(client_refs@),
            removal(start, names.take(k as int)) == (Removal {
                files: files_view(list@),
                gone: files_view(gone@),
            }),
        decreases client_refs@.len() - k,
    {
        let ghost before = Removal { files: files_view(list@), gone: files_view(gone@) };
        assert(names.take(k + 1).drop_last() =~= names.take(k as int));
        assert(names.take(k + 1).last() == client_refs@[k as int]@);
        match find_file(&list, client_refs[k].as_str()) {
            Some(i) => {
                let ghost old_list = list@;
                let file = list.remove(i);
                assert(files_view(list@) =~= before.files.remove(i as int));
                let ghost taken = file@;
                gone.push(file);
                assert(files_view(gone@) =~= before.gone.push(taken));
            },
            None => {},
        }
        k = k + 1;
    }
    assert(names.take(k as int) =~= names);
    (list, gone)
}

// ---------------------------------------------------------------------------
// Laws of allocating
// ---------------------------------------------------------------------------

/// What an allocation answers to the file at `k`: the reference it was sent
/// with, and the key of the entry with that reference.
pub open spec fn answers(a: Allocation, items: Seq<AllocateFileItemIn>, k: int) -> bool {
    &&& a.slots[k].0 == items[k].client_ref@
    &&& position_of(a.files, items[k].client_ref@) matches Some(i)
    &&& a.slots[k].1 == a.files[i].tmp_key
}

/// An allocation keeps every entry that was there, appends entries that are
/// pending and have a key under the session's prefix, keeps references
/// distinct, and answers every announced file with the key of its entry.
pub proof fn allocation_only_appends(
    prefix: Seq<char>,
    files: Seq<FileModel>,
    items: Seq<AllocateFileItemIn>,
)
    requires
        allocated(prefix, files, items) is Ok,
    ensures
        ({
            let a = allocated(prefix, files, items)->Ok_0;
            &&& a.files.len() >= files.len()
            &&& a.files.take(files.len() as int) == files
            &&& forall|i: int|
                files.len() <= i < a.files.len() ==> (#[trigger] a.files[i]).status == "pending"@
                    && prefix.is_prefix_of(a.files[i].tmp_key)
            &&& distinct_refs(files) ==> distinct_refs(a.files)
            &&& a.slots.len() == items.len()
            &&& forall|k: int| 0 <= k < items.len() ==> #[trigger] answers(a, items, k)
        }),
    decreases items.len(),
{
    let a = allocated(prefix, files, items)->Ok_0;
    if items.len() == 0 {
        assert(files.take(files.len() as int) =~= files);
    } else {
        let front = items.drop_last();
        let item = items.last();
        allocation_only_appends(prefix, files, front);
        let b = allocated(prefix, files, front)->Ok_0;
        lemma_position_of(b.files, item.client_ref@);
        match position_of(b.files, item.client_ref@) {
            Some(i) => {
                assert forall|k: int| 0 <= k < items.len() implies #[trigger] answers(
                    a,
                    items,
                    k,
                ) by {
                    if k < front.len() {
                        assert(answers(b, front, k));
                        assert(front[k] == items[k]);
                    }
                }
            },
            None => {
                let file = pending_file(prefix, item);
                assert(a.files == b.files.push(file));
                assert(a.files.take(files.len() as int) =~= b.files.take(files.len() as int));
                assert(prefix.is_prefix_of(file.tmp_key)) by {
                    assert(file.tmp_key.take(prefix.len() as int) =~= prefix);
                }
                assert(a.files.drop_last() =~= b.files);
                assert forall|k: int| 0 <= k < items.len() implies #[trigger] answers(
                    a,
                    items,
                    k,
                ) by {
                    if k < front.len() {
                        assert(answers(b, front, k));
                        assert(front[k] == items[k]);
                        assert(b.files.push(file) =~= b.files + seq![file]);
                        lemma_position_grows(b.files, seq![file], items[k].client_ref@);
                        lemma_position_of(b.files, items[k].client_ref@);
                    }
                }
            },
        }
    }
}

/// Each file has a tag and an upload time exactly where its status is done.
pub open spec fn tags_match(files: Seq<FileModel>) -> bool {
    forall|i: int| 0 <= i < files.len() ==> tag_matches(#[trigger] files[i])
}

/// The file has a tag and an upload time exactly where its status is done.
pub open spec fn tag_matches(file: FileModel) -> bool {
    &&& file.etag is Some <==> file.status == "done"@
    &&& file.uploaded_at is Some <==> file.status == "done"@
}

/// Announcing files keeps tags and states together.
pub proof fn lemma_allocated_tags(
    prefix: Seq<char>,
    files: Seq<FileModel>,
    items: Seq<AllocateFileItemIn>,
)
    requires
        tags_match(files),
        allocated(prefix, files, items) is Ok,
    ensures
        tags_match(allocated(prefix, files, items)->Ok_0.files),
    decreases items.len(),
{
    reveal_strlit("pending");
    reveal_strlit("done");
    if items.len() > 0 {
        lemma_allocated_tags(prefix, files, items.drop_last());
        assert("pending"@.len() != "done"@.len());
    }
}

/// Taking files out keeps tags and states together.
pub proof fn lemma_removal_tags(files: Seq<FileModel>, refs: Seq<Seq<char>>)
    requires
        tags_match(files),
    ensures
        tags_match(removal(files, refs).files),
    decreases refs.len(),
{
    if refs.len() > 0 {
        lemma_removal_tags(files, refs.drop_last());
        lemma_position_of(removal(files, refs.drop_last()).files, refs.last());
    }
}

/// Where all references have entries, an allocation changes no entry and
/// answers with the keys of those entries.
proof fn lemma_allocate_known(prefix: Seq<char>, files: Seq<FileModel>, items: Seq<AllocateFileItemIn>)
    requires
        forall|k: int|
            0 <= k < items.len() ==> position_of(files, (#[trigger] items[k]).client_ref@) is Some,
    ensures
        allocated(prefix, files, items) == Ok::<Allocation, Problem>(
            Allocation {
                files,
                slots: items.map_values(
                    |item: AllocateFileItemIn|
                        (
                            files[position_of(files, item.client_ref@)->0].client_ref,
                            files[position_of(files, item.client_ref@)->0].tmp_key,
                        ),
                ),
            },
        ),
    decreases items.len(),
{
    let told = |item: AllocateFileItemIn|
        (
            files[position_of(files, item.client_ref@)->0].client_ref,
            files[position_of(files, item.client_ref@)->0].tmp_key,
        );
    if items.len() == 0 {
        assert(items.map_values(told) =~= Seq::<Slot>::empty());
    } else {
        assert forall|k: int| 0 <= k < items.drop_last().len() implies position_of(
            files,
            (#[trigger] items.drop_last()[k]).client_ref@,
        ) is Some by {
            assert(items.drop_last()[k] == items[k]);
        }
        lemma_allocate_known(prefix, files, items.drop_last());
        assert(position_of(files, items[items.len() - 1].client_ref@) is Some);
        assert(items.map_values(told) =~= items.drop_last().map_values(told).push(
            told(items.last()),
        ));
    }
}

/// Announcing the same files again changes nothing and gives the same answers.
pub proof fn allocation_is_idempotent(
    prefix: Seq<char>,
    files: Seq<FileModel>,
    items: Seq<AllocateFileItemIn>,
)
    requires
        allocated(prefix, files, items) is Ok,
    ensures
        ({
            let a = allocated(prefix, files, items)->Ok_0;
            allocated(prefix, a.files, items) == Ok::<Allocation, Problem>(a)
        }),
{
    let a = allocated(prefix, files, items)->Ok_0;
    allocation_only_appends(prefix, files, items);
    assert forall|k: int| 0 <= k < items.len() implies position_of(
        a.files,
        (#[trigger] items[k]).client_ref@,
    ) is Some by {
        assert(answers(a, items, k));
    }
    lemma_allocate_known(prefix, a.files, items);
    let again = allocated(prefix, a.files, items)->Ok_0;
    assert forall|k: int| 0 <= k < items.len() implies again.slots[k] == a.slots[k] by {
        assert(answers(a, items, k));
        lemma_position_of(a.files, items[k].client_ref@);
    }
    assert(again.slots =~= a.slots);
}

/// One reference gets one key, also where a request announces it twice.
pub proof fn same_reference_same_key(
    prefix: Seq<char>,
    files: Seq<FileModel>,
    items: Seq<AllocateFileItemIn>,
    j: int,
    k: int,
)
    requires
        allocated(prefix, files, items) is Ok,
        0 <= j < items.len(),
        0 <= k < items.len(),
        items[j].client_ref@ == items[k].client_ref@,
    ensures
        allocated(prefix, files, items)->Ok_0.slots[j] == allocated(
            prefix,
            files,
            items,
        )->Ok_0.slots[k],
{
    allocation_only_appends(prefix, files, items);
    let a = allocated(prefix, files, items)->Ok_0;
    assert(answers(a, items, j));
    assert(answers(a, items, k));
}

// ---------------------------------------------------------------------------
// Laws of taking files out
// ---------------------------------------------------------------------------

/// The files whose reference is not named.
pub open spec fn unnamed(files: Seq<FileModel>, refs: Seq<Seq<char>>) -> Seq<FileModel>
    decreases files.len(),
{
    if files.len() == 0 {
        files
    } else if refs.contains(files.last().client_ref) {
        unnamed(files.drop_last(), refs)
    } else {
        unnamed(files.drop_last(), refs).push(files.last())
    }
}

pub proof fn lemma_unnamed_members(files: Seq<FileModel>, refs: Seq<Seq<char>>)
    ensures
        forall|j: int|
            0 <= j < unnamed(files, refs).len() ==> files.contains(
                #[trigger] unnamed(files, refs)[j],
            ) && !refs.contains(unnamed(files, refs)[j].client_ref),
        unnamed(files, refs).len() <= files.len(),
    decreases files.len(),
{
    if files.len() > 0 {
        let rest = files.drop_last();
        lemma_unnamed_members(rest, refs);
        let out = unnamed(files, refs);
        assert forall|j: int| 0 <= j < out.len() implies files.contains(#[trigger] out[j])
            && !refs.contains(out[j].client_ref) by {
            if j < unnamed(rest, refs).len() {
                assert(out[j] == unnamed(rest, refs)[j]);
                let m = choose|m: int| 0 <= m < rest.len() && rest[m] == out[j];
                assert(files[m] == out[j]);
            } else {
                assert(files[files.len() - 1] == out[j]);
            }
        }
    }
}

/// Naming one more reference takes out the file with it, if any.
proof fn lemma_unnamed_step(files: Seq<FileModel>, refs: Seq<Seq<char>>, r: Seq<char>)
    requires
        distinct_refs(files),
    ensures
        match position_of(unnamed(files, refs), r) {
            Some(i) => unnamed(files, refs.push(r)) == unnamed(files, refs).remove(i),
            None => unnamed(files, refs.push(r)) == unnamed(files, refs),
        },
        distinct_refs(unnamed(files, refs)),
    decreases files.len(),
{
    if files.len() > 0 {
        let rest = files.drop_last();
        let last = files.last();
        let kept = unnamed(rest, refs);
        assert(distinct_refs(rest)) by {
            assert forall|i: int, j: int| 0 <= i < j < rest.len() implies (
            #[trigger] rest[i]).client_ref != (#[trigger] rest[j]).client_ref by {
                assert(files[i] == rest[i] && files[j] == rest[j]);
            }
        }
        lemma_unnamed_step(rest, refs, r);
        lemma_unnamed_members(rest, refs);
        lemma_position_of(kept, r);
        assert(refs.push(r).contains(last.client_ref) <==> refs.contains(last.client_ref)
            || last.client_ref == r) by {
            if refs.contains(last.client_ref) {
                let m = choose|m: int| 0 <= m < refs.len() && refs[m] == last.client_ref;
                assert(refs.push(r)[m] == last.client_ref);
            }
            assert(refs.push(r)[refs.len() as int] == r);
            if refs.push(r).contains(last.client_ref) && last.client_ref != r {
                let m = choose|m: int|
                    0 <= m < refs.push(r).len() && refs.push(r)[m] == last.client_ref;
                assert(refs[m] == last.client_ref);
            }
        }
        // The last file is new to what is kept of the others.
        assert forall|j: int| 0 <= j < kept.len() implies (#[trigger] kept[j]).client_ref
            != last.client_ref by {
            assert(rest.contains(kept[j]));
            let m = choose|m: int| 0 <= m < rest.len() && rest[m] == kept[j];
            assert(files[m] == kept[j]);
            assert(files[files.len() - 1] == last);
        }
        if !refs.contains(last.client_ref) {
            let out = kept.push(last);
            assert(out.drop_last() =~= kept);
            match position_of(kept, r) {
                Some(i) => {
                    assert(kept.push(last).remove(i) =~= kept.remove(i).push(last));
                    assert(last.client_ref != r) by {
                        assert(kept[i].client_ref == r);
                    }
                },
                None => {
                    if last.client_ref == r {
                        assert(out.remove(out.len() - 1) =~= kept);
                    }
                },
            }
        }
    }
}

/// Where references are distinct, taking files out leaves exactly the files that
/// are not named, in their order, with references still distinct; taking the
/// same files out again takes none.
pub proof fn removal_leaves_the_unnamed(files: Seq<FileModel>, refs: Seq<Seq<char>>)
    requires
        distinct_refs(files),
    ensures
        removal(files, refs).files == unnamed(files, refs),
        distinct_refs(removal(files, refs).files),
        removal(removal(files, refs).files, refs).files == removal(files, refs).files,
        removal(removal(files, refs).files, refs).gone.len() == 0,
{
    lemma_removal_is_unnamed(files, refs);
    lemma_unnamed_step(files, refs, Seq::empty());
    let left = unnamed(files, refs);
    assert forall|k: int| 0 <= k < refs.len() implies position_of(left, #[trigger] refs[k]) is None by {
        lemma_unnamed_members(files, refs);
        lemma_position_of(left, refs[k]);
        if position_of(left, refs[k]) is Some {
            let i = position_of(left, refs[k])->0;
            assert(refs.contains(left[i].client_ref));
        }
    }
    lemma_removal_of_absent(left, refs);
}

proof fn lemma_removal_is_unnamed(files: Seq<FileModel>, refs: Seq<Seq<char>>)
    requires
        distinct_refs(files),
    ensures
        removal(files, refs).files == unnamed(files, refs),
    decreases refs.len(),
{
    if refs.len() == 0 {
        lemma_unnamed_of_none(files);
        assert(refs =~= Seq::<Seq<char>>::empty());
    } else {
        let front = refs.drop_last();
        lemma_removal_is_unnamed(files, front);
        lemma_unnamed_step(files, front, refs.last());
        assert(front.push(refs.last()) =~= refs);
    }
}

proof fn lemma_unnamed_of_none(files: Seq<FileModel>)
    ensures
        unnamed(files, Seq::<Seq<char>>::empty()) == files,
    decreases files.len(),
{
    if files.len() > 0 {
        lemma_unnamed_of_none(files.drop_last());
        assert(files.drop_last().push(files.last()) =~= files);
    }
}

proof fn lemma_removal_of_absent(files: Seq<FileModel>, refs: Seq<Seq<char>>)
    requires
        forall|k: int| 0 <= k < refs.len() ==> position_of(files, #[trigger] refs[k]) is None,
    ensures
        removal(files, refs) == (Removal { files, gone: Seq::empty() }),
    decreases refs.len(),
{
    if refs.len() > 0 {
        assert forall|k: int| 0 <= k < refs.drop_last().len() implies position_of(
            files,
            #[trigger] refs.drop_last()[k],
        ) is None by {
            assert(refs.drop_last()[k] == refs[k]);
        }
        lemma_removal_of_absent(files, refs.drop_last());
        assert(position_of(files, refs[refs.len() - 1]) is None);
    }
}

/// Taking files out loses none and invents none: what is left and what was taken
/// are together what was there, and every file taken out was named.
pub proof fn removal_conserves_files(files: Seq<FileModel>, refs: Seq<Seq<char>>)
    ensures
        removal(files, refs).files.to_multiset().add(removal(files, refs).gone.to_multiset())
            == files.to_multiset(),
        forall|k: int|
            0 <= k < removal(files, refs).gone.len() ==> refs.contains(
                (#[trigger] removal(files, refs).gone[k]).client_ref,
            ),
    decreases refs.len(),
{
    broadcast use vstd::seq_lib::group_to_multiset_ensures;

    let out = removal(files, refs);
    if refs.len() == 0 {
        assert(out.files.to_multiset().add(out.gone.to_multiset()) =~= files.to_multiset());
    } else {
        let front = refs.drop_last();
        let before = removal(files, front);
        removal_conserves_files(files, front);
        lemma_position_of(before.files, refs.last());
        assert forall|k: int| 0 <= k < out.gone.len() implies refs.contains(
            (#[trigger] out.gone[k]).client_ref,
        ) by {
            if k < before.gone.len() {
                assert(out.gone[k] == before.gone[k]);
                let m = choose|m: int|
                    0 <= m < front.len() && front[m] == before.gone[k].client_ref;
                assert(refs[m] == before.gone[k].client_ref);
            } else {
                assert(refs[refs.len() - 1] == out.gone[k].client_ref);
            }
        }
        match position_of(before.files, refs.last()) {
            Some(i) => {
                let file = before.files[i];
                assert(out.files.to_multiset() =~= before.files.to_multiset().remove(file));
                assert(out.gone.to_multiset() =~= before.gone.to_multiset().insert(file));
                assert(before.files.contains(file));
                assert(before.files.to_multiset().count(file) > 0);
                assert(out.files.to_multiset().add(out.gone.to_multiset()) =~= files.to_multiset());
            },
            None => {},
        }
    }
}

} // verus!
