//! The access graph: role bindings resolved to the roles they reference,
//! each with the flattened capability set of that role.
use vstd::prelude::*;

verus! {

/// An identity named by a binding (`kind` is "User", "Group" or
/// "ServiceAccount" for the kinds the audit recognises).
#[derive(Debug)]
pub struct Subject {
    pub kind: String,
    pub name: String,
}

/// A role binding or cluster role binding, as far as the audit reads it.
/// `creation_timestamp` is in seconds since the Unix epoch.
#[derive(Debug)]
pub struct Binding {
    pub name: String,
    pub namespace: Option<String>,
    pub role_name: String,
    pub subjects: Option<Vec<Subject>>,
    pub creation_timestamp: Option<i64>,
}

/// One permission rule entry of a role.
#[derive(Debug)]
pub struct PolicyRule {
    pub resources: Option<Vec<String>>,
    pub verbs: Vec<String>,
}

/// A role or cluster role: a name and its rule entries.
#[derive(Debug)]
pub struct RoleDef {
    pub name: String,
    pub rules: Option<Vec<PolicyRule>>,
}

/// Outcome of looking up the role that a binding references.
#[derive(Debug)]
pub enum RoleLookup {
    Found(RoleDef),
    NotFound,
}

/// All namespace names of the cluster, in listing order.
#[derive(Debug)]
pub struct NsAll {
    pub ns_all: Vec<String>,
}

/// A namespaced binding with its role and the role's capability set.
#[derive(Debug)]
pub struct RBInfo {
    pub role_binding_info: Binding,
    pub role_info: RoleDef,
    pub role_resources: Option<Vec<String>>,
    pub role_verbs: Vec<String>,
}

/// A cluster-scoped binding with its cluster role and capability set.
#[derive(Debug)]
pub struct CRBInfo {
    pub cluster_role_binding_info: Binding,
    pub cluster_role_info: RoleDef,
    pub cluster_role_resources: Option<Vec<String>>,
    pub cluster_role_verbs: Vec<String>,
}

/// The snapshot handed to the policy matcher.
#[derive(Debug)]
pub struct Access {
    pub ns_list: NsAll,
    pub rbinfo_list: Vec<RBInfo>,
    pub crbinfo_list: Vec<CRBInfo>,
}

/// The rule entries of a role; a role without rules has none.
pub open spec fn rules_of(rules: Option<Vec<PolicyRule>>) -> Seq<PolicyRule> {
    match rules {
        Some(v) => v@,
        None => Seq::empty(),
    }
}

/// Whether some entry carries a resource list.
pub open spec fn any_resources(rules: Seq<PolicyRule>) -> bool {
    exists|i: int| 0 <= i < rules.len() && (#[trigger] rules[i]).resources is Some
}

/// The resource lists of all entries, concatenated in order.
pub open spec fn flat_resources(rules: Seq<PolicyRule>) -> Seq<String>
    decreases rules.len(),
{
    if rules.len() == 0 {
        Seq::empty()
    } else {
        flat_resources(rules.drop_last()) + match rules.last().resources {
            Some(v) => v@,
            None => Seq::empty(),
        }
    }
}

/// The verb lists of all entries, concatenated in order.
pub open spec fn flat_verbs(rules: Seq<PolicyRule>) -> Seq<String>
    decreases rules.len(),
{
    if rules.len() == 0 {
        Seq::empty()
    } else {
        flat_verbs(rules.drop_last()) + rules.last().verbs@
    }
}

/// The normalised resource set: absent when no entry has a resource list.
pub open spec fn normalized_resources(rules: Seq<PolicyRule>) -> Option<Seq<String>> {
    if any_resources(rules) {
        Some(flat_resources(rules))
    } else {
        None
    }
}

/// The contents of an optional list.
pub open spec fn opt_seq(o: Option<Vec<String>>) -> Option<Seq<String>> {
    match o {
        Some(v) => Some(v@),
        None => None,
    }
}

/// The bindings whose lookup found a role, each paired with that role, in order.
pub open spec fn found_pairs(pairs: Seq<(Binding, RoleLookup)>) -> Seq<(Binding, RoleDef)>
    decreases pairs.len(),
{
    if pairs.len() == 0 {
        Seq::empty()
    } else {
        found_pairs(pairs.drop_last()) + match pairs.last().1 {
            RoleLookup::Found(role) => seq![(pairs.last().0, role)],
            RoleLookup::NotFound => Seq::empty(),
        }
    }
}

/// `r` holds one record per binding whose role was found, in listing order,
/// each built from that binding and role.
pub open spec fn resolved_r(pairs: Seq<(Binding, RoleLookup)>, r: Seq<RBInfo>) -> bool {
    &&& r.len() == found_pairs(pairs).len()
    &&& forall|k: int|
        0 <= k < r.len() ==> (#[trigger] r[k]).built_from(found_pairs(pairs)[k].0, found_pairs(pairs)[k].1)
}

/// The cluster-scoped counterpart of `resolved_r`.
pub open spec fn resolved_cr(pairs: Seq<(Binding, RoleLookup)>, r: Seq<CRBInfo>) -> bool {
    &&& r.len() == found_pairs(pairs).len()
    &&& forall|k: int|
        0 <= k < r.len() ==> (#[trigger] r[k]).built_from(found_pairs(pairs)[k].0, found_pairs(pairs)[k].1)
}

impl RBInfo {
    /// `self` is `binding` resolved to `role`, with the role's capability set.
    pub open spec fn built_from(self, binding: Binding, role: RoleDef) -> bool {
        &&& self.role_binding_info == binding
        &&& self.role_info == role
        &&& opt_seq(self.role_resources) == normalized_resources(rules_of(role.rules))
        &&& self.role_verbs@ == flat_verbs(rules_of(role.rules))
    }
}

impl CRBInfo {
    /// `self` is `binding` resolved to `role`, with the role's capability set.
    pub open spec fn built_from(self, binding: Binding, role: RoleDef) -> bool {
        &&& self.cluster_role_binding_info == binding
        &&& self.cluster_role_info == role
        &&& opt_seq(self.cluster_role_resources) == normalized_resources(rules_of(role.rules))
        &&& self.cluster_role_verbs@ == flat_verbs(rules_of(role.rules))
    }
}

fn append_all(out: &mut Vec<String>, src: &Vec<String>)
    ensures
        final(out)@ == old(out)@ + src@,
{
    let mut k: usize = 0;
    while k < src.len()
        invariant
            k <= src@.len(),
            out@ == old(out)@ + src@.take(k as int),
        decreases src@.len() - k,
    {
        out.push(src[k].clone());
        k = k + 1;
        assert(src@.take(k as int) =~= src@.take(k - 1).push(src@[k - 1]));
    }
    assert(src@.take(k as int) =~= src@);
}

/// Flattens the resource lists of a role's rule entries into one list.
/// Entries without resources contribute nothing; the result is absent when
/// no entry has a resource list.
pub fn normalize_resources(rules: &Option<Vec<PolicyRule>>) -> (r: Option<Vec<String>>)
    ensures
        opt_seq(r) == normalized_resources(rules_of(*rules)),
{
    let ghost rs = rules_of(*rules);
    let mut out: Vec<String> = Vec::new();
    let mut found = false;
    if let Some(list) = rules {
        let mut i: usize = 0;
        while i < list.len()
            invariant
                i <= list@.len(),
                rs == list@,
                out@ == flat_resources(rs.take(i as int)),
                found == exists|j: int| 0 <= j < i && (#[trigger] rs[j]).resources is Some,
            decreases list@.len() - i,
        {
            assert(rs.take(i + 1).drop_last() =~= rs.take(i as int));
            if let Some(res) = &list[i].resources {
                append_all(&mut out, res);
                found = true;
            }
            i = i + 1;
        }
        assert(rs.take(i as int) =~= rs);
    }
    if found {
        Some(out)
    } else {
        None
    }
}

/// Concatenates the verb lists of a role's rule entries; empty when the role
/// has no rules.
pub fn normalize_verbs(rules: &Option<Vec<PolicyRule>>) -> (r: Vec<String>)
    ensures
        r@ == flat_verbs(rules_of(*rules)),
{
    let ghost rs = rules_of(*rules);
    let mut out: Vec<String> = Vec::new();
    if let Some(list) = rules {
        let mut i: usize = 0;
        while i < list.len()
            invariant
                i <= list@.len(),
                rs == list@,
                out@ == flat_verbs(rs.take(i as int)),
            decreases list@.len() - i,
        {
            assert(rs.take(i + 1).drop_last() =~= rs.take(i as int));
            append_all(&mut out, &list[i].verbs);
            i = i + 1;
        }
        assert(rs.take(i as int) =~= rs);
    }
    out
}

impl RBInfo {
    /// Pairs a role binding with the role it references and that role's
    /// capability set.
    pub fn new(binding: Binding, role: RoleDef) -> (r: RBInfo)
        ensures
            r.built_from(binding, role),
    {
        let role_resources = normalize_resources(&role.rules);
        let role_verbs = normalize_verbs(&role.rules);
        RBInfo { role_binding_info: binding, role_info: role, role_resources, role_verbs }
    }

    /// Builds the namespaced records from the role bindings and the outcome of
    /// each one's role lookup, in order. A binding whose role was not found is
    /// left out.
    pub fn run(pairs: Vec<(Binding, RoleLookup)>) -> (r: Vec<RBInfo>)
        ensures
            resolved_r(pairs@, r@),
    {
        let total: usize = pairs.len();
        let ghost all = pairs@;
        let mut rest = pairs;
        let mut out: Vec<RBInfo> = Vec::new();
        let mut i: usize = 0;
        while rest.len() > 0
            invariant
                i <= all.len() == total,
                rest@ == all.skip(i as int),
                out@.len() == found_pairs(all.take(i as int)).len(),
                forall|k: int|
                    0 <= k < out@.len() ==> (#[trigger] out@[k]).built_from(
                        found_pairs(all.take(i as int))[k].0,
                        found_pairs(all.take(i as int))[k].1,
                    ),
            decreases rest@.len(),
        {
            assert(all.take(i + 1).drop_last() =~= all.take(i as int));
            assert(all.take(i + 1).last() == all[i as int]);
            let (binding, lookup) = rest.remove(0);
            if let RoleLookup::Found(role) = lookup {
                out.push(RBInfo::new(binding, role));
            }
            i = i + 1;
            assert(rest@ =~= all.skip(i as int));
        }
        assert(all.take(i as int) =~= all);
        out
    }
}

impl CRBInfo {
    /// Pairs a cluster role binding with the cluster role it references and
    /// that role's capability set.
    pub fn new(binding: Binding, role: RoleDef) -> (r: CRBInfo)
        ensures
            r.built_from(binding, role),
    {
        let cluster_role_resources = normalize_resources(&role.rules);
        let cluster_role_verbs = normalize_verbs(&role.rules);
        CRBInfo {
            cluster_role_binding_info: binding,
            cluster_role_info: role,
            cluster_role_resources,
            cluster_role_verbs,
        }
    }

    /// Builds the cluster-scoped records from the cluster role bindings and
    /// the outcome of each one's cluster role lookup, in order. A binding whose
    /// cluster role was not found is left out.
    pub fn run(pairs: Vec<(Binding, RoleLookup)>) -> (r: Vec<CRBInfo>)
        ensures
            resolved_cr(pairs@, r@),
    {
        let total: usize = pairs.len();
        let ghost all = pairs@;
        let mut rest = pairs;
        let mut out: Vec<CRBInfo> = Vec::new();
        let mut i: usize = 0;
        while rest.len() > 0
            invariant
                i <= all.len() == total,
                rest@ == all.skip(i as int),
                out@.len() == found_pairs(all.take(i as int)).len(),
                forall|k: int|
                    0 <= k < out@.len() ==> (#[trigger] out@[k]).built_from(
                        found_pairs(all.take(i as int))[k].0,
                        found_pairs(all.take(i as int))[k].1,
                    ),
            decreases rest@.len(),
        {
            assert(all.take(i + 1).drop_last() =~= all.take(i as int));
            assert(all.take(i + 1).last() == all[i as int]);
            let (binding, lookup) = rest.remove(0);
            if let RoleLookup::Found(role) = lookup {
                out.push(CRBInfo::new(binding, role));
            }
            i = i + 1;
            assert(rest@ =~= all.skip(i as int));
        }
        assert(all.take(i as int) =~= all);
        out
    }
}

impl Access {
    /// `self` is the snapshot built from these namespace names and looked-up
    /// bindings.
    pub open spec fn resolved_from(
        self,
        ns_all: Seq<String>,
        role_bindings: Seq<(Binding, RoleLookup)>,
        cluster_role_bindings: Seq<(Binding, RoleLookup)>,
    ) -> bool {
        &&& self.ns_list.ns_all@ == ns_all
        &&& resolved_r(role_bindings, self.rbinfo_list@)
        &&& resolved_cr(cluster_role_bindings, self.crbinfo_list@)
    }

    /// Builds the snapshot from the namespace names and the looked-up
    /// namespaced and cluster-scoped bindings.
    pub fn run(
        ns_all: Vec<String>,
        role_bindings: Vec<(Binding, RoleLookup)>,
        cluster_role_bindings: Vec<(Binding, RoleLookup)>,
    ) -> (r: Access)
        ensures
            r.resolved_from(ns_all@, role_bindings@, cluster_role_bindings@),
    {
        let rbinfo_list = RBInfo::run(role_bindings);
        let crbinfo_list = CRBInfo::run(cluster_role_bindings);
        Access { ns_list: NsAll { ns_all }, rbinfo_list, crbinfo_list }
    }
}

/// Whether some entry of `rules` lists resource `x`.
pub open spec fn in_some_entry(rules: Seq<PolicyRule>, x: String) -> bool {
    exists|i: int, k: int|
        0 <= i < rules.len() && rules[i].resources is Some && 0 <= k < rules[i].resources->0@.len()
            && #[trigger] rules[i].resources->0@[k] == x
}

/// The flattened resources hold exactly the resources listed by some entry,
/// each occurrence kept: a resource is in the union iff an entry lists it.
pub proof fn lemma_flat_resources_union(rules: Seq<PolicyRule>, x: String)
    ensures
        flat_resources(rules).contains(x) <==> in_some_entry(rules, x),
    decreases rules.len(),
{
    if rules.len() > 0 {
        let pre = rules.drop_last();
        let last = rules.last();
        let tail: Seq<String> = match last.resources {
            Some(v) => v@,
            None => Seq::empty(),
        };
        lemma_flat_resources_union(pre, x);
        assert(flat_resources(rules) == flat_resources(pre) + tail);
        if flat_resources(rules).contains(x) {
            let j = choose|j: int| 0 <= j < flat_resources(rules).len() && flat_resources(rules)[j] == x;
            if j < flat_resources(pre).len() {
                assert(flat_resources(pre)[j] == x);
                assert(in_some_entry(pre, x));
                let (i, k) = choose|i: int, k: int|
                    0 <= i < pre.len() && pre[i].resources is Some && 0 <= k
                        < pre[i].resources->0@.len() && #[trigger] pre[i].resources->0@[k] == x;
                assert(rules[i] == pre[i]);
                assert(rules[i].resources->0@[k] == x);
            } else {
                let k = j - flat_resources(pre).len();
                assert(tail[k] == x);
                assert(rules[rules.len() - 1] == last);
                assert(rules[rules.len() - 1].resources->0@[k] == x);
            }
        }
        if in_some_entry(rules, x) {
            let (i, k) = choose|i: int, k: int|
                0 <= i < rules.len() && rules[i].resources is Some && 0 <= k
                    < rules[i].resources->0@.len() && #[trigger] rules[i].resources->0@[k] == x;
            if i < rules.len() - 1 {
                assert(pre[i] == rules[i]);
                assert(pre[i].resources->0@[k] == x);
                assert(in_some_entry(pre, x));
                let j = choose|j: int| 0 <= j < flat_resources(pre).len() && flat_resources(pre)[j] == x;
                assert(flat_resources(rules)[j] == x);
            } else {
                assert(flat_resources(rules)[flat_resources(pre).len() + k] == x);
            }
        }
    }
}

/// When no entry of a role has a resource list, the normalised resource set
/// is absent rather than empty.
pub proof fn lemma_no_resources_absent(rules: Seq<PolicyRule>)
    requires
        forall|i: int| 0 <= i < rules.len() ==> (#[trigger] rules[i]).resources is None,
    ensures
        normalized_resources(rules) is None,
{
}

/// Every resolved record comes from a binding whose lookup found exactly the
/// role it carries: a binding with a dangling role reference never appears.
pub proof fn lemma_dangling_dropped(pairs: Seq<(Binding, RoleLookup)>, k: int)
    requires
        0 <= k < found_pairs(pairs).len(),
    ensures
        exists|i: int|
            0 <= i < pairs.len() && (#[trigger] pairs[i]).0 == found_pairs(pairs)[k].0
                && pairs[i].1 == RoleLookup::Found(found_pairs(pairs)[k].1),
    decreases pairs.len(),
{
    let pre = found_pairs(pairs.drop_last());
    if k < pre.len() {
        lemma_dangling_dropped(pairs.drop_last(), k);
        let i = choose|i: int|
            0 <= i < pairs.drop_last().len() && (#[trigger] pairs.drop_last()[i]).0 == pre[k].0
                && pairs.drop_last()[i].1 == RoleLookup::Found(pre[k].1);
        assert(pairs[i] == pairs.drop_last()[i]);
    } else {
        assert(pairs[pairs.len() - 1] == pairs.last());
    }
}

/// A binding whose role lookup failed, and that is not listed again with a
/// found role, is carried by no namespaced record.
pub proof fn lemma_dropped_binding_absent(pairs: Seq<(Binding, RoleLookup)>, r: Seq<RBInfo>, i: int)
    requires
        resolved_r(pairs, r),
        0 <= i < pairs.len(),
        forall|j: int| 0 <= j < pairs.len() && (#[trigger] pairs[j]).0 == pairs[i].0 ==> pairs[j].1 is NotFound,
    ensures
        forall|k: int| 0 <= k < r.len() ==> (#[trigger] r[k]).role_binding_info != pairs[i].0,
{
    assert forall|k: int| 0 <= k < r.len() implies (#[trigger] r[k]).role_binding_info != pairs[i].0 by {
        lemma_dangling_dropped(pairs, k);
    }
}

/// A cluster role binding whose lookup failed, and that is not listed again
/// with a found role, is carried by no cluster-scoped record.
pub proof fn lemma_dropped_cluster_binding_absent(
    pairs: Seq<(Binding, RoleLookup)>,
    r: Seq<CRBInfo>,
    i: int,
)
    requires
        resolved_cr(pairs, r),
        0 <= i < pairs.len(),
        forall|j: int| 0 <= j < pairs.len() && (#[trigger] pairs[j]).0 == pairs[i].0 ==> pairs[j].1 is NotFound,
    ensures
        forall|k: int| 0 <= k < r.len() ==> (#[trigger] r[k]).cluster_role_binding_info != pairs[i].0,
{
    assert forall|k: int| 0 <= k < r.len() implies (#[trigger] r[k]).cluster_role_binding_info
        != pairs[i].0 by {
        lemma_dangling_dropped(pairs, k);
    }
}

/// Two snapshots built from the same cluster state (the same namespace
/// names, listings and lookup outcomes) agree record by record: the same
/// namespaces, and in both lists the same bindings, roles and capability
/// sets in the same order.
pub proof fn lemma_resolution_repeatable(
    ns_all: Seq<String>,
    role_bindings: Seq<(Binding, RoleLookup)>,
    cluster_role_bindings: Seq<(Binding, RoleLookup)>,
    a: Access,
    b: Access,
)
    requires
        a.resolved_from(ns_all, role_bindings, cluster_role_bindings),
        b.resolved_from(ns_all, role_bindings, cluster_role_bindings),
    ensures
        a.ns_list.ns_all@ == b.ns_list.ns_all@,
        a.rbinfo_list@.len() == b.rbinfo_list@.len(),
        forall|k: int|
            0 <= k < a.rbinfo_list@.len() ==> {
                let (x, y) = (#[trigger] a.rbinfo_list@[k], b.rbinfo_list@[k]);
                &&& x.role_binding_info == y.role_binding_info
                &&& x.role_info == y.role_info
                &&& opt_seq(x.role_resources) == opt_seq(y.role_resources)
                &&& x.role_verbs@ == y.role_verbs@
            },
        a.crbinfo_list@.len() == b.crbinfo_list@.len(),
        forall|k: int|
            0 <= k < a.crbinfo_list@.len() ==> {
                let (x, y) = (#[trigger] a.crbinfo_list@[k], b.crbinfo_list@[k]);
                &&& x.cluster_role_binding_info == y.cluster_role_binding_info
                &&& x.cluster_role_info == y.cluster_role_info
                &&& opt_seq(x.cluster_role_resources) == opt_seq(y.cluster_role_resources)
                &&& x.cluster_role_verbs@ == y.cluster_role_verbs@
            },
{
    assert forall|k: int| 0 <= k < a.rbinfo_list@.len() implies {
        let (x, y) = (#[trigger] a.rbinfo_list@[k], b.rbinfo_list@[k]);
        &&& x.role_binding_info == y.role_binding_info
        &&& x.role_info == y.role_info
        &&& opt_seq(x.role_resources) == opt_seq(y.role_resources)
        &&& x.role_verbs@ == y.role_verbs@
    } by {
        assert(b.rbinfo_list@[k].built_from(found_pairs(role_bindings)[k].0, found_pairs(role_bindings)[k].1));
    }
    assert forall|k: int| 0 <= k < a.crbinfo_list@.len() implies {
        let (x, y) = (#[trigger] a.crbinfo_list@[k], b.crbinfo_list@[k]);
        &&& x.cluster_role_binding_info == y.cluster_role_binding_info
        &&& x.cluster_role_info == y.cluster_role_info
        &&& opt_seq(x.cluster_role_resources) == opt_seq(y.cluster_role_resources)
        &&& x.cluster_role_verbs@ == y.cluster_role_verbs@
    } by {
        assert(b.crbinfo_list@[k].built_from(
            found_pairs(cluster_role_bindings)[k].0,
            found_pairs(cluster_role_bindings)[k].1,
        ));
    }
}

} // verus!
