//! Merging of specifications.

use crate::json::{lemma_object_view, leveled, Json, JsonView};
use crate::revision::error::{Result, RevisionError, RevisionErrorView};
use crate::revision::ids::RevisionId;
use crate::revision::merge_laws::{is_finite, law_clean_merge_is_a_specification};
use crate::revision::spec::{AgentSpec, AgentSpecView};
use crate::revision::spec_codec::{agent_spec_json, agent_spec_of, make_agent_spec, read_agent_spec};
use crate::same::{outcome_of, Replica, Same};
use crate::text::glue3;
use crate::text_map::{add_keys, sorted_keys, TextMap};
use vstd::prelude::*;

verus! {

/// A value that two revisions changed in different ways.
#[derive(Debug, PartialEq, Eq)]
pub struct MergeConflict {
    pub path: String,
    pub base: Option<Json>,
    pub ours: Option<Json>,
    pub theirs: Option<Json>,
}

/// What a [`MergeConflict`] holds.
#[verifier::ext_equal]
pub struct MergeConflictView {
    pub path: Seq<char>,
    pub base: Option<JsonView>,
    pub ours: Option<JsonView>,
    pub theirs: Option<JsonView>,
}

impl DeepView for MergeConflict {
    type V = MergeConflictView;

    open spec fn deep_view(&self) -> Self::V {
        MergeConflictView {
            path: self.path.deep_view(),
            base: self.base.deep_view(),
            ours: self.ours.deep_view(),
            theirs: self.theirs.deep_view(),
        }
    }
}

impl Replica for MergeConflict {
    fn replica(&self) -> (r: Self) {
        MergeConflict {
            path: self.path.replica(),
            base: self.base.replica(),
            ours: self.ours.replica(),
            theirs: self.theirs.replica(),
        }
    }
}

impl Clone for MergeConflict {
    fn clone(&self) -> (r: Self)
        ensures
            r.deep_view() == self.deep_view(),
    {
        self.replica()
    }
}

impl Same for MergeConflict {
    fn same(&self, other: &Self) -> (r: bool) {
        self.path.same(&other.path)
            && self.base.same(&other.base)
            && self.ours.same(&other.ours)
            && self.theirs.same(&other.theirs)
    }
}

/// What became of a merge.
#[derive(Debug, PartialEq, Eq)]
pub struct MergeResult {
    pub base: RevisionId,
    pub ours: RevisionId,
    pub theirs: RevisionId,
    pub spec: Option<AgentSpec>,
    pub conflicts: Vec<MergeConflict>,
}

/// What a [`MergeResult`] holds.
#[verifier::ext_equal]
pub struct MergeResultView {
    pub base: Seq<char>,
    pub ours: Seq<char>,
    pub theirs: Seq<char>,
    pub spec: Option<AgentSpecView>,
    pub conflicts: Seq<MergeConflictView>,
}

impl DeepView for MergeResult {
    type V = MergeResultView;

    open spec fn deep_view(&self) -> Self::V {
        MergeResultView {
            base: self.base.deep_view(),
            ours: self.ours.deep_view(),
            theirs: self.theirs.deep_view(),
            spec: self.spec.deep_view(),
            conflicts: self.conflicts.deep_view(),
        }
    }
}

impl Replica for MergeResult {
    fn replica(&self) -> (r: Self) {
        MergeResult {
            base: self.base.replica(),
            ours: self.ours.replica(),
            theirs: self.theirs.replica(),
            spec: self.spec.replica(),
            conflicts: self.conflicts.replica(),
        }
    }
}

impl Clone for MergeResult {
    fn clone(&self) -> (r: Self)
        ensures
            r.deep_view() == self.deep_view(),
    {
        self.replica()
    }
}

/// The value of a key, if there is one.
pub open spec fn lookup<V>(map: Map<Seq<char>, V>, key: Seq<char>) -> Option<V> {
    if map.contains_key(key) {
        Some(map[key])
    } else {
        None
    }
}

/// One for a value that is there.
pub open spec fn presence(value: Option<JsonView>) -> nat {
    if value is Some {
        1
    } else {
        0
    }
}

/// The keys of three objects, in ascending order.
pub open spec fn merge_keys(
    base: Map<Seq<char>, JsonView>,
    ours: Map<Seq<char>, JsonView>,
    theirs: Map<Seq<char>, JsonView>,
) -> Seq<Seq<char>> {
    sorted_keys(base.dom().union(ours.dom()).union(theirs.dom()))
}

/// A member is smaller than its object.
pub proof fn lemma_member_is_smaller(members: Map<Seq<char>, JsonView>, key: Seq<char>)
    ensures
        members.contains_key(key) ==> decreases_to!(JsonView::Object(members) => members[key]),
{
    let json = JsonView::Object(members);
    if members.contains_key(key) {
        assert(decreases_to!(json => json->Object_0[key]));
    }
}

/// Two values compare equal, or both are missing.
pub open spec fn agree(a: Option<JsonView>, b: Option<JsonView>) -> bool {
    match (a, b) {
        (Some(a), Some(b)) => leveled(a) == leveled(b),
        (None, None) => true,
        _ => false,
    }
}

/// What a value becomes when two sides changed it: what both agree on, what one side changed, or
/// the members of objects merged one by one. A conflict leaves nothing.
pub open spec fn merged(
    base: Option<JsonView>,
    ours: Option<JsonView>,
    theirs: Option<JsonView>,
) -> Option<JsonView>
    decreases presence(ours), ours->Some_0, 1nat, 0nat,
{
    if agree(ours, theirs) {
        ours
    } else if agree(ours, base) {
        theirs
    } else if agree(theirs, base) {
        ours
    } else {
        match (base, ours, theirs) {
            (
                Some(JsonView::Object(b)),
                Some(JsonView::Object(o)),
                Some(JsonView::Object(t)),
            ) => Some(
                JsonView::Object(merged_members(b, o, t, merge_keys(b, o, t))),
            ),
            _ => None,
        }
    }
}

/// The members of three objects under some keys, merged one by one.
pub open spec fn merged_members(
    base: Map<Seq<char>, JsonView>,
    ours: Map<Seq<char>, JsonView>,
    theirs: Map<Seq<char>, JsonView>,
    keys: Seq<Seq<char>>,
) -> Map<Seq<char>, JsonView>
    decreases 1nat, JsonView::Object(ours), 0nat, keys.len(),
{
    if keys.len() == 0 {
        Map::empty()
    } else {
        let key = keys.last();
        proof {
            lemma_member_is_smaller(ours, key);
        }
        let rest = merged_members(base, ours, theirs, keys.drop_last());
        match merged(lookup(base, key), lookup(ours, key), lookup(theirs, key)) {
            Some(value) => rest.insert(key, value),
            None => rest,
        }
    }
}

/// The conflicts of a merge, in the order in which the values are walked.
pub open spec fn merge_conflicts(
    base: Option<JsonView>,
    ours: Option<JsonView>,
    theirs: Option<JsonView>,
    path: Seq<char>,
) -> Seq<MergeConflictView>
    decreases presence(ours), ours->Some_0, 1nat, 0nat,
{
    if agree(ours, theirs) || agree(ours, base) || agree(theirs, base) {
        Seq::empty()
    } else {
        match (base, ours, theirs) {
            (
                Some(JsonView::Object(b)),
                Some(JsonView::Object(o)),
                Some(JsonView::Object(t)),
            ) => member_conflicts(
                b,
                o,
                t,
                merge_keys(b, o, t),
                path,
            ),
            _ => seq![MergeConflictView { path, base, ours, theirs }],
        }
    }
}

/// The conflicts of the members of three objects under some keys.
pub open spec fn member_conflicts(
    base: Map<Seq<char>, JsonView>,
    ours: Map<Seq<char>, JsonView>,
    theirs: Map<Seq<char>, JsonView>,
    keys: Seq<Seq<char>>,
    path: Seq<char>,
) -> Seq<MergeConflictView>
    decreases 1nat, JsonView::Object(ours), 0nat, keys.len(),
{
    if keys.len() == 0 {
        Seq::empty()
    } else {
        let key = keys.last();
        proof {
            lemma_member_is_smaller(ours, key);
        }
        member_conflicts(base, ours, theirs, keys.drop_last(), path) + merge_conflicts(
            lookup(base, key),
            lookup(ours, key),
            lookup(theirs, key),
            path + "."@ + key,
        )
    }
}

/// What is at a place in a document, if there is anything.
pub open spec fn seen(value: Option<&Json>) -> Option<JsonView> {
    match value {
        Some(value) => Some(value.deep_view()),
        None => None,
    }
}

fn same_value(a: Option<&Json>, b: Option<&Json>) -> (r: bool)
    ensures
        r == agree(seen(a), seen(b)),
{
    match (a, b) {
        (Some(a), Some(b)) => a.alike(b),
        (None, None) => true,
        _ => false,
    }
}

fn copy_value(value: Option<&Json>) -> (r: Option<Json>)
    ensures
        r.deep_view() == seen(value),
{
    match value {
        Some(value) => Some(value.replica()),
        None => None,
    }
}

/// Merges the values at a place in three documents.
pub fn merge_value(
    base: Option<&Json>,
    ours: Option<&Json>,
    theirs: Option<&Json>,
    path: &str,
    conflicts: &mut Vec<MergeConflict>,
) -> (r: Option<Json>)
    ensures
        r.deep_view() == merged(seen(base), seen(ours), seen(theirs)),
        final(conflicts).deep_view() == old(conflicts).deep_view() + merge_conflicts(
            seen(base),
            seen(ours),
            seen(theirs),
            path@,
        ),
    decreases (if ours is Some { 1nat } else { 0nat }), ours->Some_0,
{
    let ghost before = conflicts.deep_view();
    if same_value(ours, theirs) {
        assert(before + Seq::<MergeConflictView>::empty() =~= before);
        return copy_value(ours);
    }
    if same_value(ours, base) {
        assert(before + Seq::<MergeConflictView>::empty() =~= before);
        return copy_value(theirs);
    }
    if same_value(theirs, base) {
        assert(before + Seq::<MergeConflictView>::empty() =~= before);
        return copy_value(ours);
    }
    if let (Some(Json::Object(b)), Some(Json::Object(o)), Some(Json::Object(t))) = (
        base,
        ours,
        theirs,
    ) {
        proof {
            lemma_object_view(*b);
            lemma_object_view(*o);
            lemma_object_view(*t);
            assert(b.deep_view().dom() =~= b@.dom());
            assert(o.deep_view().dom() =~= o@.dom());
            assert(t.deep_view().dom() =~= t@.dom());
        }
        let ghost bv = b.deep_view();
        let ghost ov = o.deep_view();
        let ghost tv = t.deep_view();
        let none: TextMap<bool> = TextMap::new();
        let keys = add_keys(add_keys(add_keys(none, b), o), t);
        assert(keys@.dom() =~= bv.dom().union(ov.dom()).union(tv.dom()));
        let ghost names = merge_keys(bv, ov, tv);
        let n: usize = keys.walk();
        let mut members: TextMap<Json> = TextMap::new();
        assert(names.take(0) =~= Seq::<Seq<char>>::empty());
        assert(members.deep_view() =~= Map::<Seq<char>, JsonView>::empty());
        assert(before + Seq::<MergeConflictView>::empty() =~= before);
        for i in 0..n
            invariant
                n == names.len(),
                names == keys.keys(),
                ours == Some(&Json::Object(*o)),
                bv == b.deep_view(),
                ov == o.deep_view(),
                tv == t.deep_view(),
                bv.dom() == b@.dom(),
                ov.dom() == o@.dom(),
                tv.dom() == t@.dom(),
                members.deep_view() == merged_members(bv, ov, tv, names.take(i as int)),
                conflicts.deep_view() == before + member_conflicts(
                    bv,
                    ov,
                    tv,
                    names.take(i as int),
                    path@,
                ),
        {
            let key = keys.key_at(i);
            let ghost upto = names.take(i + 1);
            assert(upto.drop_last() =~= names.take(i as int));
            assert(upto.last() == key@);
            let mine = o.get(key.as_str());
            proof {
                if mine is Some {
                    assert(decreases_to!(ours->Some_0 => ours->Some_0->Object_0));
                    o.lemma_value_smaller(key@);
                }
            }
            let ghost so_far = conflicts.deep_view();
            let child = merge_value(
                b.get(key.as_str()),
                mine,
                t.get(key.as_str()),
                glue3(path, ".", key.as_str()).as_str(),
                conflicts,
            );
            assert(conflicts.deep_view() =~= before + member_conflicts(bv, ov, tv, upto, path@));
            if let Some(value) = child {
                members = members.with(key.as_str(), value);
            }
        }
        assert(names.take(n as int) =~= names);
        proof {
            lemma_object_view(members);
        }
        return Some(Json::Object(members));
    }
    conflicts.push(
        MergeConflict {
            path: path.to_owned(),
            base: copy_value(base),
            ours: copy_value(ours),
            theirs: copy_value(theirs),
        },
    );
    assert(conflicts.deep_view() =~= before + merge_conflicts(
        seen(base),
        seen(ours),
        seen(theirs),
        path@,
    ));
    None
}

impl MergeResult {
    /// Tells whether nothing was in conflict.
    pub fn is_clean(&self) -> (r: bool)
        ensures
            r == (self.deep_view().conflicts.len() == 0),
    {
        self.conflicts.len() == 0
    }
}

/// The conflicts of the merge of two specifications.
pub open spec fn spec_conflicts(
    base: AgentSpecView,
    ours: AgentSpecView,
    theirs: AgentSpecView,
) -> Seq<MergeConflictView> {
    merge_conflicts(
        Some(agent_spec_json(base)),
        Some(agent_spec_json(ours)),
        Some(agent_spec_json(theirs)),
        "$"@,
    )
}

/// The document that two specifications become where nothing is in conflict.
pub open spec fn spec_merged(
    base: AgentSpecView,
    ours: AgentSpecView,
    theirs: AgentSpecView,
) -> Option<JsonView> {
    merged(
        Some(agent_spec_json(base)),
        Some(agent_spec_json(ours)),
        Some(agent_spec_json(theirs)),
    )
}

/// What becomes of the merge of two specifications that have a common base.
pub open spec fn merge_outcome(
    base_id: Seq<char>,
    ours_id: Seq<char>,
    theirs_id: Seq<char>,
    base: AgentSpecView,
    ours: AgentSpecView,
    theirs: AgentSpecView,
) -> core::result::Result<MergeResultView, RevisionErrorView> {
    let conflicts = spec_conflicts(base, ours, theirs);
    let result = MergeResultView {
        base: base_id,
        ours: ours_id,
        theirs: theirs_id,
        spec: None,
        conflicts,
    };
    if conflicts.len() > 0 {
        Ok(result)
    } else {
        match spec_merged(base, ours, theirs) {
            None => Err(RevisionErrorView::Serialization("merged agent spec was deleted"@)),
            Some(value) => Ok(MergeResultView { spec: agent_spec_of(value), ..result }),
        }
    }
}

/// The maps of a specification are walked to their ends.
fn walk_maps(spec: &AgentSpec)
    ensures
        is_finite(spec.deep_view()),
{
    spec.prompts.templates.walk();
    spec.tools.walk();
    assert(spec.prompts.templates.deep_view().dom() =~= spec.prompts.templates@.dom());
    assert(spec.tools.deep_view().dom() =~= spec.tools@.dom());
}

/// Merges two specifications that have a common base. A merge without conflict gives a
/// specification.
pub fn merge_specs(
    base_id: RevisionId,
    ours_id: RevisionId,
    theirs_id: RevisionId,
    base: &AgentSpec,
    ours: &AgentSpec,
    theirs: &AgentSpec,
) -> (r: Result<MergeResult>)
    ensures
        outcome_of(r) == merge_outcome(
            base_id.deep_view(),
            ours_id.deep_view(),
            theirs_id.deep_view(),
            base.deep_view(),
            ours.deep_view(),
            theirs.deep_view(),
        ),
        r matches Ok(result) && (result.deep_view().spec is Some)
            == (result.deep_view().conflicts.len() == 0),
{
    walk_maps(base);
    walk_maps(ours);
    walk_maps(theirs);
    proof {
        if spec_conflicts(base.deep_view(), ours.deep_view(), theirs.deep_view()).len() == 0 {
            law_clean_merge_is_a_specification(
                base.deep_view(),
                ours.deep_view(),
                theirs.deep_view(),
            );
        }
    }
    let mut conflicts: Vec<MergeConflict> = Vec::new();
    let merged_value = merge_value(
        Some(&make_agent_spec(base)),
        Some(&make_agent_spec(ours)),
        Some(&make_agent_spec(theirs)),
        "$",
        &mut conflicts,
    );
    assert(conflicts.deep_view() =~= spec_conflicts(
        base.deep_view(),
        ours.deep_view(),
        theirs.deep_view(),
    ));
    let spec = if conflicts.len() == 0 {
        match merged_value {
            None => {
                return Err(
                    RevisionError::Serialization("merged agent spec was deleted".to_owned()),
                );
            },
            Some(value) => match read_agent_spec(&value) {
                Ok(spec) => Some(spec),
                Err(error) => return Err(RevisionError::Serialization(error)),
            },
        }
    } else {
        None
    };
    Ok(MergeResult { base: base_id, ours: ours_id, theirs: theirs_id, spec, conflicts })
}

/// A side that changed nothing gives way to the other, without conflict, and so do two sides that
/// agree. Where the change is none but in the sign of a zero, ours stands.
pub proof fn law_one_sided_change_wins(
    base: Option<JsonView>,
    changed: Option<JsonView>,
    path: Seq<char>,
)
    ensures
        agree(merged(base, base, changed), changed),
        !agree(base, changed) ==> merged(base, base, changed) == changed,
        merged(base, changed, base) == changed,
        merged(base, changed, changed) == changed,
        merge_conflicts(base, base, changed, path).len() == 0,
        merge_conflicts(base, changed, base, path).len() == 0,
        merge_conflicts(base, changed, changed, path).len() == 0,
{
}

/// A conflict seen from the other side.
pub open spec fn mirrored(conflict: MergeConflictView) -> MergeConflictView {
    MergeConflictView { ours: conflict.theirs, theirs: conflict.ours, ..conflict }
}

/// Merging the other way round gives a value that compares equal, and the same conflicts seen from
/// the other side.
pub proof fn law_merge_is_symmetric(
    base: Option<JsonView>,
    ours: Option<JsonView>,
    theirs: Option<JsonView>,
    path: Seq<char>,
)
    ensures
        agree(merged(base, ours, theirs), merged(base, theirs, ours)),
        merge_conflicts(base, theirs, ours, path)
            == merge_conflicts(base, ours, theirs, path).map_values(
            |conflict: MergeConflictView| mirrored(conflict),
        ),
    decreases presence(ours), ours->Some_0, 1nat, 0nat,
{
    let there = merge_conflicts(base, ours, theirs, path).map_values(
        |conflict: MergeConflictView| mirrored(conflict),
    );
    if agree(ours, theirs) || agree(ours, base) || agree(theirs, base) {
        assert(merge_conflicts(base, theirs, ours, path) =~= there);
    } else {
        match (base, ours, theirs) {
            (Some(JsonView::Object(b)), Some(JsonView::Object(o)), Some(JsonView::Object(t))) => {
                let keys = merge_keys(b, o, t);
                assert(b.dom().union(o.dom()).union(t.dom()) =~= b.dom().union(t.dom()).union(o.dom()));
                lemma_members_are_symmetric(b, o, t, keys, path);
            },
            _ => {
                assert(merge_conflicts(base, theirs, ours, path) =~= there);
            },
        }
    }
}

/// Objects that compare equal still do with one more member that does.
proof fn lemma_inserted(
    one: Map<Seq<char>, JsonView>,
    two: Map<Seq<char>, JsonView>,
    key: Seq<char>,
    a: Option<JsonView>,
    b: Option<JsonView>,
)
    requires
        agree(Some(JsonView::Object(one)), Some(JsonView::Object(two))),
        agree(a, b),
    ensures
        a is Some ==> agree(
            Some(JsonView::Object(one.insert(key, a->Some_0))),
            Some(JsonView::Object(two.insert(key, b->Some_0))),
        ),
{
    if a is Some {
        let before = leveled(JsonView::Object(one))->Object_0;
        let other = leveled(JsonView::Object(two))->Object_0;
        let x = leveled(JsonView::Object(one.insert(key, a->Some_0)))->Object_0;
        let y = leveled(JsonView::Object(two.insert(key, b->Some_0)))->Object_0;
        assert(x =~= before.insert(key, leveled(a->Some_0)));
        assert(y =~= other.insert(key, leveled(b->Some_0)));
    }
}

proof fn lemma_members_are_symmetric(
    base: Map<Seq<char>, JsonView>,
    ours: Map<Seq<char>, JsonView>,
    theirs: Map<Seq<char>, JsonView>,
    keys: Seq<Seq<char>>,
    path: Seq<char>,
)
    ensures
        agree(
            Some(JsonView::Object(merged_members(base, ours, theirs, keys))),
            Some(JsonView::Object(merged_members(base, theirs, ours, keys))),
        ),
        member_conflicts(base, theirs, ours, keys, path) == member_conflicts(
            base,
            ours,
            theirs,
            keys,
            path,
        ).map_values(|conflict: MergeConflictView| mirrored(conflict)),
    decreases 1nat, JsonView::Object(ours), 0nat, keys.len(),
{
    let there = member_conflicts(base, ours, theirs, keys, path).map_values(
        |conflict: MergeConflictView| mirrored(conflict),
    );
    if keys.len() == 0 {
        assert(member_conflicts(base, theirs, ours, keys, path) =~= there);
    } else {
        let key = keys.last();
        lemma_member_is_smaller(ours, key);
        lemma_members_are_symmetric(base, ours, theirs, keys.drop_last(), path);
        let one = merged_members(base, ours, theirs, keys.drop_last());
        let two = merged_members(base, theirs, ours, keys.drop_last());
        law_merge_is_symmetric(
            lookup(base, key),
            lookup(ours, key),
            lookup(theirs, key),
            path + "."@ + key,
        );
        lemma_inserted(
            one,
            two,
            key,
            merged(lookup(base, key), lookup(ours, key), lookup(theirs, key)),
            merged(lookup(base, key), lookup(theirs, key), lookup(ours, key)),
        );
        assert(member_conflicts(base, theirs, ours, keys, path) =~= there);
    }
}

} // verus!
