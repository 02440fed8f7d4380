use vstd::prelude::*;

use crate::error::ErrorV;
use crate::error::msg_missing_href;
use crate::error::msg_missing_reference;
use crate::event::EventV;
use crate::event::href_of;
use crate::event::is_directive_end;
use crate::event::is_directive_start;
use crate::event::is_document_marker;
use crate::event::is_dropped;
use crate::expand::FileV;
use crate::expand::Outcome;
use crate::expand::lemma_prepend_compose;
use crate::expand::lookup;
use crate::expand::prepend;
use crate::expand::spec_expand_file;
use crate::expand::spec_expand_from;
use crate::path::ReferenceV;
use crate::path::is_absolute_path;
use crate::path::spec_resolve;

verus! {

/// Whether an event sequence holds no inclusion directive, neither a start
/// nor an end.
pub open spec fn has_no_directives(evs: Seq<EventV>) -> bool {
    forall|j: int|
        0 <= j < evs.len() ==> !is_directive_start(evs[j]) && !is_directive_end(evs[j])
}

/// The content of an event sequence: the events in order, with the document
/// boundary markers removed.
pub open spec fn content_of(evs: Seq<EventV>) -> Seq<EventV>
    decreases evs.len(),
{
    if evs.len() == 0 {
        Seq::empty()
    } else if is_document_marker(evs[0]) {
        content_of(evs.drop_first())
    } else {
        seq![evs[0]] + content_of(evs.drop_first())
    }
}

/// Content distributes over concatenation.
pub proof fn lemma_content_of_concat(a: Seq<EventV>, b: Seq<EventV>)
    ensures
        content_of(a + b) == content_of(a) + content_of(b),
    decreases a.len(),
{
    if a.len() == 0 {
        assert(a + b =~= b);
        assert(content_of(a) + content_of(b) =~= content_of(b));
    } else {
        assert((a + b)[0] == a[0]);
        assert((a + b).drop_first() =~= a.drop_first() + b);
        lemma_content_of_concat(a.drop_first(), b);
        if !is_document_marker(a[0]) {
            assert(seq![a[0]] + (content_of(a.drop_first()) + content_of(b)) =~= (seq![a[0]]
                + content_of(a.drop_first())) + content_of(b));
        }
    }
}

/// A suffix with no directives and no pending parse error expands to its own
/// content: every event passes through except the document markers.
pub proof fn lemma_clean_suffix(
    evs: Seq<EventV>,
    i: int,
    reference: Option<ReferenceV>,
    fs: Seq<(Seq<char>, FileV)>,
    fuel: nat,
)
    requires
        0 <= i <= evs.len(),
        forall|j: int| i <= j < evs.len() ==> !is_directive_start(evs[j]) && !is_directive_end(evs[j]),
    ensures
        spec_expand_from(evs, None, i, reference, fs, fuel) == Outcome::Expanded(
            content_of(evs.skip(i)),
        ),
    decreases evs.len() - i,
{
    if i == evs.len() {
        assert(evs.skip(i) =~= Seq::<EventV>::empty());
    } else {
        lemma_clean_suffix(evs, i + 1, reference, fs, fuel);
        assert(evs.skip(i)[0] == evs[i]);
        assert(evs.skip(i).drop_first() =~= evs.skip(i + 1));
        if is_document_marker(evs[i]) {
            assert(content_of(evs.skip(i)) == content_of(evs.skip(i + 1)));
        } else {
            assert(!is_dropped(evs[i]));
            assert(content_of(evs.skip(i)) == seq![evs[i]] + content_of(evs.skip(i + 1)));
        }
    }
}

/// Expansion walks a directive-free stretch by passing its content through,
/// whatever stands behind the stretch.
pub proof fn lemma_step_clean_prefix(
    evs: Seq<EventV>,
    perr: Option<Seq<char>>,
    i: int,
    k: int,
    reference: Option<ReferenceV>,
    fs: Seq<(Seq<char>, FileV)>,
    fuel: nat,
)
    requires
        0 <= i <= k <= evs.len(),
        forall|j: int| i <= j < k ==> !is_directive_start(evs[j]) && !is_directive_end(evs[j]),
    ensures
        spec_expand_from(evs, perr, i, reference, fs, fuel) == prepend(
            content_of(evs.subrange(i, k)),
            spec_expand_from(evs, perr, k, reference, fs, fuel),
        ),
    decreases k - i,
{
    let rest = spec_expand_from(evs, perr, k, reference, fs, fuel);
    if i == k {
        assert(evs.subrange(i, k) =~= Seq::<EventV>::empty());
        match rest {
            Outcome::Expanded(s) => {
                assert(Seq::<EventV>::empty() + s =~= s);
            },
            _ => {},
        }
    } else {
        lemma_step_clean_prefix(evs, perr, i + 1, k, reference, fs, fuel);
        let part = evs.subrange(i, k);
        assert(part[0] == evs[i]);
        assert(part.drop_first() =~= evs.subrange(i + 1, k));
        if is_document_marker(evs[i]) {
            assert(content_of(part) == content_of(evs.subrange(i + 1, k)));
        } else {
            assert(!is_dropped(evs[i]));
            assert(content_of(part) == seq![evs[i]] + content_of(evs.subrange(i + 1, k)));
            lemma_prepend_compose(seq![evs[i]], content_of(evs.subrange(i + 1, k)), rest);
        }
    }
}

/// Law: a document with no inclusion directives expands to itself — the same
/// events in the same order, with only the document boundary markers removed,
/// so no boundary is ever duplicated into the output.
pub proof fn lemma_expand_without_directives_is_identity(
    file: FileV,
    reference: Option<ReferenceV>,
    fs: Seq<(Seq<char>, FileV)>,
    fuel: nat,
)
    requires
        file.error is None,
        has_no_directives(file.events),
    ensures
        spec_expand_file(file, reference, fs, fuel) == Outcome::Expanded(content_of(file.events)),
{
    lemma_clean_suffix(file.events, 0, reference, fs, fuel);
    assert(file.events.skip(0) =~= file.events);
}

/// A directive whose target expands fully contributes exactly that expansion,
/// in place, before the rest of the stream.
pub proof fn lemma_directive_step(
    evs: Seq<EventV>,
    perr: Option<Seq<char>>,
    i: int,
    reference: Option<ReferenceV>,
    fs: Seq<(Seq<char>, FileV)>,
    fuel: nat,
    h: Seq<char>,
    p: Seq<char>,
    child: FileV,
    cc: Seq<EventV>,
)
    requires
        0 <= i < evs.len(),
        is_directive_start(evs[i]),
        href_of(evs[i]) == Some(h),
        spec_resolve(h, reference) == Result::<Seq<char>, ErrorV>::Ok(p),
        lookup(fs, p) == Some(child),
        fuel >= 1,
        spec_expand_file(child, reference, fs, (fuel - 1) as nat) == Outcome::Expanded(cc),
    ensures
        spec_expand_from(evs, perr, i, reference, fs, fuel) == prepend(
            cc,
            spec_expand_from(evs, perr, i + 1, reference, fs, fuel),
        ),
{
}

/// Law (flattening, general form): a document made of a directive between two
/// directive-free stretches expands to the first stretch's content, then the
/// target's whole expansion, then the second stretch's content — and nothing
/// else, so no nested document boundaries appear.
pub proof fn lemma_splice(
    pre: Seq<EventV>,
    dstart: EventV,
    dend: EventV,
    post: Seq<EventV>,
    h: Seq<char>,
    p: Seq<char>,
    child: FileV,
    cc: Seq<EventV>,
    reference: Option<ReferenceV>,
    fs: Seq<(Seq<char>, FileV)>,
    fuel: nat,
)
    requires
        has_no_directives(pre),
        has_no_directives(post),
        is_directive_start(dstart),
        href_of(dstart) == Some(h),
        is_directive_end(dend),
        spec_resolve(h, reference) == Result::<Seq<char>, ErrorV>::Ok(p),
        lookup(fs, p) == Some(child),
        fuel >= 1,
        spec_expand_file(child, reference, fs, (fuel - 1) as nat) == Outcome::Expanded(cc),
    ensures
        spec_expand_file(
            FileV { events: pre + seq![dstart, dend] + post, error: None },
            reference,
            fs,
            fuel,
        ) == Outcome::Expanded(content_of(pre) + cc + content_of(post)),
{
    let evs = pre + seq![dstart, dend] + post;
    let k = pre.len() as int;
    assert(forall|j: int| 0 <= j < k ==> evs[j] == pre[j]);
    assert(evs[k] == dstart);
    assert(evs[k + 1] == dend);
    assert(forall|j: int| k + 2 <= j < evs.len() ==> evs[j] == post[j - k - 2]);

    lemma_step_clean_prefix(evs, None, 0, k, reference, fs, fuel);
    assert(evs.subrange(0, k) =~= pre);

    lemma_directive_step(evs, None, k, reference, fs, fuel, h, p, child, cc);

    assert(!is_directive_start(evs[k + 1]) && is_dropped(evs[k + 1]));
    assert(spec_expand_from(evs, None, k + 1, reference, fs, fuel) == spec_expand_from(
        evs,
        None,
        k + 2,
        reference,
        fs,
        fuel,
    ));

    lemma_clean_suffix(evs, k + 2, reference, fs, fuel);
    assert(evs.skip(k + 2) =~= post);

    let tail = Outcome::Expanded(content_of(post));
    lemma_prepend_compose(content_of(pre), cc, tail);
    assert((content_of(pre) + cc) + content_of(post) =~= content_of(pre) + cc + content_of(post));
}

/// Law (flattening): a document holding one inclusion directive whose target
/// is a plain document — no directives of its own, no parse error — expands
/// to the document with the directive replaced by the target's content.
pub proof fn lemma_flattening(
    pre: Seq<EventV>,
    dstart: EventV,
    dend: EventV,
    post: Seq<EventV>,
    h: Seq<char>,
    p: Seq<char>,
    child: FileV,
    reference: Option<ReferenceV>,
    fs: Seq<(Seq<char>, FileV)>,
    fuel: nat,
)
    requires
        has_no_directives(pre),
        has_no_directives(post),
        is_directive_start(dstart),
        href_of(dstart) == Some(h),
        is_directive_end(dend),
        spec_resolve(h, reference) == Result::<Seq<char>, ErrorV>::Ok(p),
        lookup(fs, p) == Some(child),
        child.error is None,
        has_no_directives(child.events),
        fuel >= 1,
    ensures
        spec_expand_file(
            FileV { events: pre + seq![dstart, dend] + post, error: None },
            reference,
            fs,
            fuel,
        ) == Outcome::Expanded(content_of(pre) + content_of(child.events) + content_of(post)),
{
    lemma_expand_without_directives_is_identity(child, reference, fs, (fuel - 1) as nat);
    lemma_splice(
        pre,
        dstart,
        dend,
        post,
        h,
        p,
        child,
        content_of(child.events),
        reference,
        fs,
        fuel,
    );
}

/// Law (recursive transitivity): when a document includes a target that in
/// turn includes a second target, expanding it gives the same result as
/// expanding the document with both inclusions already inlined by hand — at
/// any depth bound for the inlined form.
pub proof fn lemma_recursive_transitivity(
    a_pre: Seq<EventV>,
    da_start: EventV,
    da_end: EventV,
    a_post: Seq<EventV>,
    b_pre: Seq<EventV>,
    db_start: EventV,
    db_end: EventV,
    b_post: Seq<EventV>,
    hb: Seq<char>,
    pb: Seq<char>,
    bfile: FileV,
    hc: Seq<char>,
    pc: Seq<char>,
    cfile: FileV,
    reference: Option<ReferenceV>,
    fs: Seq<(Seq<char>, FileV)>,
    fuel: nat,
    fuel2: nat,
)
    requires
        has_no_directives(a_pre),
        has_no_directives(a_post),
        has_no_directives(b_pre),
        has_no_directives(b_post),
        is_directive_start(da_start),
        href_of(da_start) == Some(hb),
        is_directive_end(da_end),
        is_directive_start(db_start),
        href_of(db_start) == Some(hc),
        is_directive_end(db_end),
        spec_resolve(hb, reference) == Result::<Seq<char>, ErrorV>::Ok(pb),
        lookup(fs, pb) == Some(bfile),
        bfile.events == b_pre + seq![db_start, db_end] + b_post,
        bfile.error is None,
        spec_resolve(hc, reference) == Result::<Seq<char>, ErrorV>::Ok(pc),
        lookup(fs, pc) == Some(cfile),
        cfile.error is None,
        has_no_directives(cfile.events),
        fuel >= 2,
    ensures
        spec_expand_file(
            FileV { events: a_pre + seq![da_start, da_end] + a_post, error: None },
            reference,
            fs,
            fuel,
        ) == spec_expand_file(
            FileV {
                events: a_pre + b_pre + cfile.events + b_post + a_post,
                error: None,
            },
            reference,
            fs,
            fuel2,
        ),
{
    let c = cfile.events;
    // The nested target expands with one unit of depth spent on it.
    lemma_flattening(
        b_pre,
        db_start,
        db_end,
        b_post,
        hc,
        pc,
        cfile,
        reference,
        fs,
        (fuel - 1) as nat,
    );
    let bb = content_of(b_pre) + content_of(c) + content_of(b_post);
    lemma_splice(
        a_pre,
        da_start,
        da_end,
        a_post,
        hb,
        pb,
        bfile,
        bb,
        reference,
        fs,
        fuel,
    );

    let inlined = a_pre + b_pre + c + b_post + a_post;
    assert(has_no_directives(inlined)) by {
        assert forall|j: int| 0 <= j < inlined.len() implies !is_directive_start(inlined[j])
            && !is_directive_end(inlined[j]) by {
            let la = a_pre.len() as int;
            let lb = b_pre.len() as int;
            let lc = c.len() as int;
            let ld = b_post.len() as int;
            if j < la {
                assert(inlined[j] == a_pre[j]);
            } else if j < la + lb {
                assert(inlined[j] == b_pre[j - la]);
            } else if j < la + lb + lc {
                assert(inlined[j] == c[j - la - lb]);
            } else if j < la + lb + lc + ld {
                assert(inlined[j] == b_post[j - la - lb - lc]);
            } else {
                assert(inlined[j] == a_post[j - la - lb - lc - ld]);
            }
        }
    }
    lemma_expand_without_directives_is_identity(
        FileV { events: inlined, error: None },
        reference,
        fs,
        fuel2,
    );
    assert(content_of(inlined) == content_of(a_pre) + bb + content_of(a_post)) by {
        lemma_content_of_concat(a_pre + b_pre + c + b_post, a_post);
        lemma_content_of_concat(a_pre + b_pre + c, b_post);
        lemma_content_of_concat(a_pre + b_pre, c);
        lemma_content_of_concat(a_pre, b_pre);
        assert(a_pre + b_pre + c + b_post + a_post =~= (a_pre + b_pre + c + b_post) + a_post);
        assert(content_of(a_pre) + bb + content_of(a_post) =~= (((content_of(a_pre)
            + content_of(b_pre)) + content_of(c)) + content_of(b_post)) + content_of(a_post));
    }
}

/// Law (missing href): a directive that carries no href attribute makes the
/// whole expansion fail with the reference error, whatever directive-free
/// content precedes it and whatever follows it.
pub proof fn lemma_missing_href_fails(
    pre: Seq<EventV>,
    d: EventV,
    rest: Seq<EventV>,
    perr: Option<Seq<char>>,
    reference: Option<ReferenceV>,
    fs: Seq<(Seq<char>, FileV)>,
    fuel: nat,
)
    requires
        has_no_directives(pre),
        is_directive_start(d),
        href_of(d) is None,
    ensures
        spec_expand_file(
            FileV { events: pre + seq![d] + rest, error: perr },
            reference,
            fs,
            fuel,
        ) == Outcome::Fail(ErrorV::XmlReference(msg_missing_href())),
{
    let evs = pre + seq![d] + rest;
    let k = pre.len() as int;
    assert(forall|j: int| 0 <= j < k ==> evs[j] == pre[j]);
    assert(evs[k] == d);
    lemma_step_clean_prefix(evs, perr, 0, k, reference, fs, fuel);
    assert(spec_expand_from(evs, perr, k, reference, fs, fuel) == Outcome::Fail(
        ErrorV::XmlReference(msg_missing_href()),
    ));
}

/// Law (missing reference context): with no reference context supplied, a
/// directive whose href is relative makes the whole expansion fail with the
/// reference error — it never asks for a file.
pub proof fn lemma_missing_reference_fails(
    pre: Seq<EventV>,
    d: EventV,
    rest: Seq<EventV>,
    perr: Option<Seq<char>>,
    h: Seq<char>,
    fs: Seq<(Seq<char>, FileV)>,
    fuel: nat,
)
    requires
        has_no_directives(pre),
        is_directive_start(d),
        href_of(d) == Some(h),
        !is_absolute_path(h),
    ensures
        spec_expand_file(
            FileV { events: pre + seq![d] + rest, error: perr },
            Option::<ReferenceV>::None,
            fs,
            fuel,
        ) == Outcome::Fail(ErrorV::XmlReference(msg_missing_reference())),
{
    let evs = pre + seq![d] + rest;
    let k = pre.len() as int;
    assert(forall|j: int| 0 <= j < k ==> evs[j] == pre[j]);
    assert(evs[k] == d);
    lemma_step_clean_prefix(evs, perr, 0, k, Option::<ReferenceV>::None, fs, fuel);
    assert(spec_expand_from(evs, perr, k, Option::<ReferenceV>::None, fs, fuel) == Outcome::Fail(
        ErrorV::XmlReference(msg_missing_reference()),
    ));
}

} // verus!
