use vstd::prelude::*;
use crate::error::{ObtError, Status};
use crate::fixture::{answers, render, rendering, Param};
use crate::codec::{base64_standard_decoded, utf8_error_message};
use crate::path::{clean, cleaned, components_view, split, split_on, SEPARATOR};
use crate::response::Response;
use crate::text::{append_bytes, copy_range};
use vstd::utf8::valid_utf8;

verus! {

/// Whether `component` is `.`, which names the directory it stands in.
pub open spec fn is_current(component: Seq<u8>) -> bool {
    component == seq![0x2eu8]
}

/// Whether `component` is `..`, which names the parent directory.
pub open spec fn is_parent(component: Seq<u8>) -> bool {
    component == seq![0x2eu8, 0x2eu8]
}

/// Whether `component` names an entry of a directory.
pub open spec fn is_plain(component: Seq<u8>) -> bool {
    component.len() > 0 && !is_current(component) && !is_parent(component)
}

/// Where one component leads from the directory `at`: an empty component and
/// `.` stay, `..` goes up (and stays at the root), a name goes down.
pub open spec fn stepped(at: Seq<Seq<u8>>, component: Seq<u8>) -> Seq<Seq<u8>> {
    if component.len() == 0 || is_current(component) {
        at
    } else if is_parent(component) {
        if at.len() > 0 {
            at.drop_last()
        } else {
            at
        }
    } else {
        at.push(component)
    }
}

/// Where a list of components leads from the directory `at`.
pub open spec fn walked(at: Seq<Seq<u8>>, components: Seq<Seq<u8>>) -> Seq<Seq<u8>>
    decreases components.len(),
{
    if components.len() == 0 {
        at
    } else {
        walked(stepped(at, components[0]), components.skip(1))
    }
}

/// Whether a cleaned path starts at the root rather than at the working directory.
pub open spec fn is_absolute(path: Seq<u8>) -> bool {
    path.len() > 0 && path[0] == SEPARATOR
}

/// The place that a request path names, as the components of an absolute
/// path: the cleaned path is followed from the working directory, or from
/// the root where it is absolute.
pub open spec fn location(work_dir: Seq<Seq<u8>>, request_path: Seq<u8>) -> Seq<Seq<u8>> {
    let path = cleaned(request_path);
    walked(
        if is_absolute(path) {
            Seq::empty()
        } else {
            work_dir
        },
        split(path, SEPARATOR),
    )
}

/// Whether `place` is the directory `dir` or lies below it.
pub open spec fn within(dir: Seq<Seq<u8>>, place: Seq<Seq<u8>>) -> bool {
    dir.len() <= place.len() && place.subrange(0, dir.len() as int) == dir
}

/// The components of an absolute path, with `.` and `..` followed.
pub open spec fn components(path: Seq<u8>) -> Seq<Seq<u8>> {
    walked(Seq::empty(), split(path, SEPARATOR))
}

/// The absolute path with the given components.
pub open spec fn joined(components: Seq<Seq<u8>>) -> Seq<u8>
    decreases components.len(),
{
    if components.len() == 0 {
        Seq::empty()
    } else {
        joined(components.drop_last()) + seq![SEPARATOR] + components.last()
    }
}

/// The description of the error for a request that leaves the working directory.
pub open spec fn escape_message() -> Seq<char> {
    "Try to escape from work directory"@
}

fn copy_components(components: &Vec<Vec<u8>>) -> (r: Vec<Vec<u8>>)
    ensures
        components_view(r@) == components_view(components@),
{
    let mut out: Vec<Vec<u8>> = Vec::new();
    let mut i: usize = 0;
    while i < components.len()
        invariant
            i <= components.len(),
            components_view(out@) == components_view(components@).take(i as int),
        decreases components.len() - i,
    {
        let piece = copy_range(components[i].as_slice(), 0, components[i].len());
        assert(piece@ == components@[i as int]@);
        assert(components_view(out@.push(piece)) == components_view(out@).push(piece@));
        assert(components_view(components@).take(i as int).push(components@[i as int]@)
            == components_view(components@).take(i + 1));
        out.push(piece);
        i += 1;
    }
    assert(components_view(components@).take(components.len() as int) == components_view(
        components@,
    ));
    out
}

/// Follows `components` from the directory `at`.
pub fn walk(at: Vec<Vec<u8>>, components: &Vec<Vec<u8>>) -> (r: Vec<Vec<u8>>)
    ensures
        components_view(r@) == walked(components_view(at@), components_view(components@)),
{
    let ghost all = components_view(components@);
    let ghost origin = components_view(at@);
    let mut stack = at;
    let mut i: usize = 0;
    assert(all.skip(0) == all);
    while i < components.len()
        invariant
            i <= components.len(),
            all == components_view(components@),
            walked(origin, all) == walked(components_view(stack@), all.skip(i as int)),
        decreases components.len() - i,
    {
        let component = &components[i];
        let ghost before = components_view(stack@);
        assert(all.skip(i as int)[0] == component@);
        assert(all.skip(i as int).skip(1) == all.skip(i + 1));
        if component.len() == 0 {
        } else if component.len() == 1 && component[0] == 0x2e {
            assert(component@ == seq![0x2eu8]);
        } else if component.len() == 2 && component[0] == 0x2e && component[1] == 0x2e {
            assert(component@ == seq![0x2eu8, 0x2eu8]);
            assert(!is_current(component@));
            if stack.len() > 0 {
                stack.pop();
                assert(components_view(stack@) == before.drop_last());
            }
        } else {
            assert(!is_current(component@)) by {
                if is_current(component@) {
                    assert(component@.len() == 1);
                    assert(component@[0] == 0x2e);
                }
            }
            assert(!is_parent(component@)) by {
                if is_parent(component@) {
                    assert(component@.len() == 2);
                    assert(component@[0] == 0x2e);
                    assert(component@[1] == 0x2e);
                }
            }
            let piece = copy_range(component.as_slice(), 0, component.len());
            assert(piece@ == component@);
            assert(components_view(stack@.push(piece)) == before.push(component@));
            stack.push(piece);
        }
        i += 1;
    }
    stack
}

/// Whether `place` is the directory `dir` or lies below it.
pub fn is_within(dir: &Vec<Vec<u8>>, place: &Vec<Vec<u8>>) -> (r: bool)
    ensures
        r == within(components_view(dir@), components_view(place@)),
{
    if dir.len() > place.len() {
        return false;
    }
    let ghost d = components_view(dir@);
    let ghost p = components_view(place@);
    let mut i: usize = 0;
    while i < dir.len()
        invariant
            i <= dir.len() <= place.len(),
            d == components_view(dir@),
            p == components_view(place@),
            p.subrange(0, i as int) == d.subrange(0, i as int),
        decreases dir.len() - i,
    {
        if !crate::text::bytes_eq(dir[i].as_slice(), place[i].as_slice()) {
            assert(p.subrange(0, d.len() as int)[i as int] != d[i as int]);
            return false;
        }
        assert(p.subrange(0, i + 1) == p.subrange(0, i as int).push(p[i as int]));
        assert(d.subrange(0, i + 1) == d.subrange(0, i as int).push(d[i as int]));
        i += 1;
    }
    assert(d.subrange(0, d.len() as int) == d);
    true
}

/// The components of an absolute path, with `.` and `..` followed.
pub fn path_components(path: &[u8]) -> (r: Vec<Vec<u8>>)
    ensures
        components_view(r@) == components(path@),
{
    let pieces = split_on(path, SEPARATOR);
    let root: Vec<Vec<u8>> = Vec::new();
    assert(components_view(root@) == Seq::<Seq<u8>>::empty());
    walk(root, &pieces)
}

/// The absolute path with the given components; the root itself is the empty path.
pub fn join(components: &Vec<Vec<u8>>) -> (r: Vec<u8>)
    ensures
        r@ == joined(components_view(components@)),
{
    let ghost all = components_view(components@);
    let mut out: Vec<u8> = Vec::new();
    let mut i: usize = 0;
    assert(all.take(0).len() == 0);
    while i < components.len()
        invariant
            i <= components.len(),
            all == components_view(components@),
            out@ == joined(all.take(i as int)),
        decreases components.len() - i,
    {
        assert(all.take(i + 1).drop_last() == all.take(i as int));
        assert(all.take(i + 1).last() == components@[i as int]@);
        out.push(SEPARATOR);
        append_bytes(&mut out, components[i].as_slice());
        i += 1;
    }
    assert(all.take(components.len() as int) == all);
    out
}

/// Refuses a place outside the working directory.
pub fn ensure_within(work_dir: &Vec<Vec<u8>>, place: &Vec<Vec<u8>>) -> (r: Result<(), ObtError>)
    ensures
        r is Ok <==> within(components_view(work_dir@), components_view(place@)),
        r is Err ==> r->Err_0.status() == Status::Forbidden && r->Err_0.description()
            == escape_message(),
{
    if is_within(work_dir, place) {
        Ok(())
    } else {
        Err(ObtError::new(Status::Forbidden, "Try to escape from work directory"))
    }
}

/// The file that a request outside the catalogue asks for. `work_dir` holds
/// the components of the working directory's absolute path. The request path
/// is cleaned and followed from there; a place outside the working directory
/// is refused, however the path got there.
pub fn locate(work_dir: &Vec<Vec<u8>>, request_path: &[u8]) -> (r: Result<Vec<Vec<u8>>, ObtError>)
    ensures
        r is Ok <==> within(
            components_view(work_dir@),
            location(components_view(work_dir@), request_path@),
        ),
        r is Ok ==> components_view(r->Ok_0@) == location(
            components_view(work_dir@),
            request_path@,
        ),
        r is Err ==> r->Err_0.status() == Status::Forbidden && r->Err_0.description()
            == escape_message(),
{
    let path = clean(request_path);
    let pieces = split_on(path.as_slice(), SEPARATOR);
    let start: Vec<Vec<u8>> = if path.len() > 0 && path[0] == SEPARATOR {
        let root: Vec<Vec<u8>> = Vec::new();
        assert(components_view(root@) == Seq::<Seq<u8>>::empty());
        root
    } else {
        copy_components(work_dir)
    };
    let place = walk(start, &pieces);
    match ensure_within(work_dir, &place) {
        Ok(()) => Ok(place),
        Err(e) => Err(e),
    }
}

/// Answers with the contents of a file from the working directory: decoded
/// and as MessagePack where they are valid base64, as JSON text otherwise.
/// Nothing is substituted.
pub fn serve(contents: &[u8]) -> (r: Result<Response, ObtError>)
    ensures
        answers(
            r,
            rendering(
                contents@,
                Seq::empty(),
                base64_standard_decoded(contents@),
                if valid_utf8(contents@) {
                    None
                } else {
                    Some(utf8_error_message(contents@))
                },
            ),
        ),
        base64_standard_decoded(contents@) is Some || valid_utf8(contents@) ==> r is Ok,
{
    let params: Vec<Param> = Vec::new();
    assert(crate::fixture::params_view(params@) == Seq::<(Seq<u8>, Seq<u8>)>::empty());
    render(contents, &params)
}

/// Names alone lead downwards: following them from a directory ends below it.
pub proof fn lemma_plain_components_stay_within(at: Seq<Seq<u8>>, names: Seq<Seq<u8>>)
    requires
        forall|i: int| 0 <= i < names.len() ==> is_plain(#[trigger] names[i]),
    ensures
        walked(at, names) == at + names,
        within(at, walked(at, names)),
    decreases names.len(),
{
    if names.len() == 0 {
        assert(at + names == at);
    } else {
        assert(is_plain(names[0]));
        let rest = names.skip(1);
        assert forall|i: int| 0 <= i < rest.len() implies is_plain(#[trigger] rest[i]) by {
            assert(rest[i] == names[i + 1]);
        }
        lemma_plain_components_stay_within(at.push(names[0]), rest);
        assert(at.push(names[0]) + rest == at + names);
    }
    assert((at + names).subrange(0, at.len() as int) == at);
}

/// One step up from the working directory is outside it, whatever the
/// directory: a path that only climbs is refused.
pub proof fn lemma_parent_is_outside(work_dir: Seq<Seq<u8>>)
    requires
        work_dir.len() > 0,
    ensures
        !within(work_dir, walked(work_dir, seq![seq![0x2eu8, 0x2eu8]])),
{
    let up = seq![seq![0x2eu8, 0x2eu8]];
    assert(is_parent(up[0]));
    assert(up[0].len() == 2);
    assert(!is_current(up[0]));
    assert(up.skip(1).len() == 0);
    assert(walked(stepped(work_dir, up[0]), up.skip(1)) == stepped(work_dir, up[0]));
}

} // verus!
