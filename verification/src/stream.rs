//! The body of a file: the tags one after the other, each followed by the
//! four bytes that hold its size.

use vstd::prelude::*;
use crate::bytes::{spec_u32_be_bytes, tail};
use crate::error::FlvError;
use crate::header::{flv_header, spec_flv_header, FLVHeader};
use crate::tag::{spec_tag, spec_tag_header, tag, Tag, TagModel, BACK_POINTER_SIZE};

verus! {

/// The models of a run of tags, in order.
pub open spec fn tags_model(v: Seq<Tag>) -> Seq<TagModel> {
    Seq::new(v.len(), |i: int| v[i]@)
}

/// The tags `head` go in front of those that `r` holds.
pub open spec fn tags_after(head: Seq<TagModel>, r: Result<Seq<TagModel>, FlvError>) -> Result<
    Seq<TagModel>,
    FlvError,
> {
    match r {
        Ok(ts) => Ok(head + ts),
        Err(e) => Err(e),
    }
}

/// The tags of a file's body, which `bytes` is from its first byte to its
/// last: four bytes of size (of the tag before, which nothing here reads),
/// then either nothing more or a tag and the body that follows it. The first
/// tag that fails to decode fails the whole, with its error; a size field
/// cut short is `Truncated`.
pub open spec fn spec_tags(bytes: Seq<u8>) -> Result<Seq<TagModel>, FlvError>
    decreases bytes.len(),
{
    if bytes.len() < 4 {
        Err(FlvError::Truncated)
    } else if bytes.len() == 4 {
        Ok(Seq::empty())
    } else {
        match spec_tag(tail(bytes, 4)) {
            Err(e) => Err(e),
            Ok((t, rest)) => tags_after(seq![t], spec_tags(rest)),
        }
    }
}

/// A file: the header, and the tags of the body, which begins at the offset
/// that the header gives.
pub open spec fn spec_flv_file(bytes: Seq<u8>) -> Result<(FLVHeader, Seq<TagModel>), FlvError> {
    match spec_flv_header(bytes) {
        Err(e) => Err(e),
        Ok(header) => if bytes.len() < header.data_offset {
            Err(FlvError::Truncated)
        } else {
            match spec_tags(tail(bytes, header.data_offset as int)) {
                Err(e) => Err(e),
                Ok(ts) => Ok((header, ts)),
            }
        },
    }
}

/// Decoded tags, by their models.
pub open spec fn tags_result(r: Result<Vec<Tag>, FlvError>) -> Result<Seq<TagModel>, FlvError> {
    match r {
        Ok(v) => Ok(tags_model(v@)),
        Err(e) => Err(e),
    }
}

/// A decoded file, by its model.
pub open spec fn file_result(r: Result<(FLVHeader, Vec<Tag>), FlvError>) -> Result<
    (FLVHeader, Seq<TagModel>),
    FlvError,
> {
    match r {
        Ok((h, v)) => Ok((h, tags_model(v@))),
        Err(e) => Err(e),
    }
}

/// Decodes the tags of a file's body, skipping the size field before each
/// and after the last.
pub fn tags(input: &[u8]) -> (r: Result<Vec<Tag>, FlvError>)
    ensures
        tags_result(r) == spec_tags(input@),
        r matches Ok(v) ==> forall|i: int| 0 <= i < v.len() ==> (#[trigger] v[i]).wf(),
{
    let mut res: Vec<Tag> = Vec::new();
    let mut last: &[u8] = input;
    loop
        invariant
            spec_tags(input@) == tags_after(tags_model(res@), spec_tags(last@)),
            forall|i: int| 0 <= i < res.len() ==> (#[trigger] res[i]).wf(),
        decreases last@.len(),
    {
        let ghost before = tags_model(res@);
        if last.len() < BACK_POINTER_SIZE {
            return Err(FlvError::Truncated);
        }
        if last.len() == BACK_POINTER_SIZE {
            assert(before + Seq::<TagModel>::empty() =~= before);
            return Ok(res);
        }
        let (t, rest) = match tag(&last[BACK_POINTER_SIZE..last.len()]) {
            Ok(x) => x,
            Err(e) => return Err(e),
        };
        proof {
            if let Ok(ts) = spec_tags(rest@) {
                assert(before + (seq![t@] + ts) =~= before.push(t@) + ts);
            }
            assert(tags_model(res@.push(t)) =~= before.push(t@));
        }
        res.push(t);
        last = rest;
    }
}

/// Decodes a whole file: the header, then the tags from the offset that the
/// header gives.
pub fn flv_file(input: &[u8]) -> (r: Result<(FLVHeader, Vec<Tag>), FlvError>)
    ensures
        file_result(r) == spec_flv_file(input@),
        r matches Ok((_, v)) ==> forall|i: int| 0 <= i < v.len() ==> (#[trigger] v[i]).wf(),
{
    let header = match flv_header(input) {
        Ok(h) => h,
        Err(e) => return Err(e),
    };
    let offset: usize = header.data_offset as usize;
    if input.len() < offset {
        return Err(FlvError::Truncated);
    }
    match tags(&input[offset..input.len()]) {
        Ok(ts) => Ok((header, ts)),
        Err(e) => Err(e),
    }
}

/// `bytes` is one whole tag, header and payload and nothing more, and
/// decodes to `model`.
pub open spec fn is_whole_tag(bytes: Seq<u8>, model: TagModel) -> bool {
    spec_tag(bytes) == Ok::<(TagModel, Seq<u8>), FlvError>((model, Seq::empty()))
}

/// A whole tag decodes to the same with more bytes behind, and leaves
/// exactly those; its declared size is the length of its payload.
pub proof fn lemma_tag_framed(bytes: Seq<u8>, model: TagModel, extra: Seq<u8>)
    requires
        is_whole_tag(bytes, model),
    ensures
        spec_tag(bytes + extra) == Ok::<(TagModel, Seq<u8>), FlvError>((model, extra)),
        bytes.len() == 11 + model.header.data_size,
{
    let more = bytes + extra;
    let header = spec_tag_header(bytes)->Ok_0;
    let end = 11 + header.data_size;
    assert(tail(bytes, end).len() == Seq::<u8>::empty().len());
    assert(bytes.len() == end);
    assert(spec_tag_header(more) == spec_tag_header(bytes));
    assert(more.subrange(11, end) =~= bytes.subrange(11, end));
    assert(tail(more, end) =~= extra);
}

/// A body that begins with a size field and a whole tag decodes to that tag
/// and then to the tags of what follows it.
pub proof fn lemma_tags_step(first_size: Seq<u8>, first: Seq<u8>, model: TagModel, next: Seq<u8>)
    requires
        first_size.len() == 4,
        is_whole_tag(first, model),
    ensures
        spec_tags(first_size + (first + next)) == tags_after(seq![model], spec_tags(next)),
{
    let body = first_size + (first + next);
    lemma_tag_framed(first, model, next);
    assert(tail(body, 4) =~= first + next);
}

/// The tags `tags`, each followed by its size in four big-endian bytes.
pub open spec fn tags_with_sizes(tags: Seq<Seq<u8>>) -> Seq<u8>
    decreases tags.len(),
{
    if tags.len() == 0 {
        Seq::empty()
    } else {
        tags[0] + (spec_u32_be_bytes(tags[0].len() as u32) + tags_with_sizes(tags.drop_first()))
    }
}

/// A body made of the first size field, which `first_size` is, and of N
/// whole tags, each followed by its size, decodes to exactly those N tags,
/// in order, and is used up by them.
pub proof fn lemma_tags_of_body(first_size: Seq<u8>, tags: Seq<Seq<u8>>, models: Seq<TagModel>)
    requires
        first_size.len() == 4,
        tags.len() == models.len(),
        forall|i: int| 0 <= i < tags.len() ==> is_whole_tag(#[trigger] tags[i], models[i]),
    ensures
        spec_tags(first_size + tags_with_sizes(tags)) == Ok::<Seq<TagModel>, FlvError>(models),
    decreases tags.len(),
{
    if tags.len() == 0 {
        assert(first_size + tags_with_sizes(tags) =~= first_size);
        assert(models =~= Seq::<TagModel>::empty());
    } else {
        let size = spec_u32_be_bytes(tags[0].len() as u32);
        let others = tags.drop_first();
        let later = models.drop_first();
        assert forall|i: int| 0 <= i < others.len() implies is_whole_tag(
            #[trigger] others[i],
            later[i],
        ) by {
            assert(is_whole_tag(tags[i + 1], models[i + 1]));
        }
        lemma_tags_of_body(size, others, later);
        assert(is_whole_tag(tags[0], models[0]));
        lemma_tags_step(first_size, tags[0], models[0], size + tags_with_sizes(others));
        assert(seq![models[0]] + later =~= models);
    }
}

/// A well-formed file decodes to its header and exactly its N tags, with
/// nothing left over: the header, whose offset is its own length, the first
/// size field, and N whole tags, each followed by its size. Each tag's
/// declared size is the length of its payload.
pub proof fn lemma_well_formed_file(
    head: Seq<u8>,
    first_size: Seq<u8>,
    tags: Seq<Seq<u8>>,
    models: Seq<TagModel>,
)
    requires
        spec_flv_header(head) matches Ok(h) && h.data_offset == head.len(),
        first_size.len() == 4,
        tags.len() == models.len(),
        forall|i: int| 0 <= i < tags.len() ==> is_whole_tag(#[trigger] tags[i], models[i]),
    ensures
        spec_flv_file(head + (first_size + tags_with_sizes(tags))) == Ok::<
            (FLVHeader, Seq<TagModel>),
            FlvError,
        >((spec_flv_header(head)->Ok_0, models)),
        forall|i: int|
            0 <= i < tags.len() ==> (#[trigger] tags[i]).len() == 11
                + models[i].header.data_size,
{
    let body = first_size + tags_with_sizes(tags);
    let file = head + body;
    lemma_tags_of_body(first_size, tags, models);
    assert(tail(file, head.len() as int) =~= body);
    assert(spec_flv_header(file) == spec_flv_header(head));
    assert forall|i: int| 0 <= i < tags.len() implies (#[trigger] tags[i]).len() == 11
        + models[i].header.data_size by {
        lemma_tag_framed(tags[i], models[i], Seq::empty());
    }
}

} // verus!
