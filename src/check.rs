//! The policy: named check items, each a scope and rule clauses, and the
//! matcher that evaluates them against an access snapshot.
use vstd::prelude::*;
use crate::access::{opt_seq, Access, Binding, CRBInfo, RBInfo, Subject};
use crate::print::{OutCR, OutR, SubKind, subkind_of};

verus! {

/// The scope a check item applies to: both kinds of binding, namespaced
/// role bindings only, or cluster role bindings only.
#[derive(Debug, Clone, Copy, PartialEq, Eq, Structural)]
pub enum Kind {
    All,
    Role,
    ClusterRole,
}

/// A rule clause: every listed resource must be granted, each together with
/// every listed verb. A clause without resources constrains nothing.
#[derive(Debug)]
pub struct Rules {
    pub resources: Option<Vec<String>>,
    pub verbs: Vec<String>,
}

/// One named check of the policy.
#[derive(Debug)]
pub struct CheckItem {
    pub kind: Kind,
    pub rules: Option<Vec<Rules>>,
}

/// The policy: check items under unique names, in the order they were added.
#[derive(Debug)]
pub struct Check {
    pub itemlist: Vec<(String, CheckItem)>,
}

/// Why a policy evaluation or lookup failed.
#[derive(Debug, PartialEq, Eq)]
pub enum CheckError {
    /// A matched binding's first subject has a kind other than User, Group
    /// or ServiceAccount.
    UnknownSubjectKind(String),
    /// No check item has the requested name.
    MissingItem(String),
}

/// The records one check item produced, per scope.
#[derive(Debug)]
pub struct ItemReport {
    pub namespaced: Vec<OutR>,
    pub cluster: Vec<OutCR>,
    /// Names of matched role bindings left out for want of a subject.
    pub skipped_namespaced: Vec<String>,
    /// Names of matched cluster role bindings left out for want of a subject.
    pub skipped_cluster: Vec<String>,
}

/// Whether `s` occurs in `v`, comparing text.
pub open spec fn has_str(v: Seq<String>, s: String) -> bool {
    exists|i: int| 0 <= i < v.len() && (#[trigger] v[i])@ == s@
}

/// A clause holds of a capability set when each of its resources is granted
/// and, for a clause with at least one resource, each of its verbs is too.
pub open spec fn clause_ok(c: Rules, res: Option<Seq<String>>, verbs: Seq<String>) -> bool {
    match c.resources {
        None => true,
        Some(rs) => rs@.len() == 0 || {
            &&& res is Some
            &&& forall|k: int| 0 <= k < rs@.len() ==> has_str(res->0, #[trigger] rs@[k])
            &&& forall|j: int| 0 <= j < c.verbs@.len() ==> has_str(verbs, #[trigger] c.verbs@[j])
        },
    }
}

/// A clause that pairs at least one resource with at least one verb.
pub open spec fn clause_fires(c: Rules) -> bool {
    &&& c.resources is Some
    &&& c.resources->0@.len() > 0
    &&& c.verbs@.len() > 0
}

/// The match decision: the clause list is present, every clause holds, and
/// at least one resource-verb pair was actually checked.
pub open spec fn rules_match(
    rules: Option<Vec<Rules>>,
    res: Option<Seq<String>>,
    verbs: Seq<String>,
) -> bool {
    match rules {
        None => false,
        Some(cs) => {
            &&& forall|i: int| 0 <= i < cs@.len() ==> clause_ok(#[trigger] cs@[i], res, verbs)
            &&& exists|i: int| 0 <= i < cs@.len() && clause_fires(#[trigger] cs@[i])
        },
    }
}

fn contains_str(v: &Vec<String>, s: &String) -> (r: bool)
    ensures
        r == has_str(v@, *s),
{
    let mut i: usize = 0;
    while i < v.len()
        invariant
            i <= v@.len(),
            forall|j: int| 0 <= j < i ==> (#[trigger] v@[j])@ != s@,
        decreases v@.len() - i,
    {
        if v[i] == *s {
            return true;
        }
        i = i + 1;
    }
    false
}

fn all_present(v: &Vec<String>, wanted: &Vec<String>) -> (r: bool)
    ensures
        r == forall|j: int| 0 <= j < wanted@.len() ==> has_str(v@, #[trigger] wanted@[j]),
{
    let mut i: usize = 0;
    while i < wanted.len()
        invariant
            i <= wanted@.len(),
            forall|j: int| 0 <= j < i ==> has_str(v@, #[trigger] wanted@[j]),
        decreases wanted@.len() - i,
    {
        if !contains_str(v, &wanted[i]) {
            return false;
        }
        i = i + 1;
    }
    true
}

/// Evaluates a check item's rule clauses against one capability set, in
/// order, stopping with `false` at the first resource or verb not granted.
pub fn matches_rules(
    rules: &Option<Vec<Rules>>,
    res: &Option<Vec<String>>,
    verbs: &Vec<String>,
) -> (r: bool)
    ensures
        r == rules_match(*rules, opt_seq(*res), verbs@),
{
    let cs = match rules {
        None => return false,
        Some(cs) => cs,
    };
    let ghost rv = opt_seq(*res);
    let mut checked = false;
    let mut i: usize = 0;
    while i < cs.len()
        invariant
            i <= cs@.len(),
            rv == opt_seq(*res),
            *rules == Some(*cs),
            forall|j: int| 0 <= j < i ==> clause_ok(#[trigger] cs@[j], rv, verbs@),
            checked == exists|j: int| 0 <= j < i && clause_fires(#[trigger] cs@[j]),
        decreases cs@.len() - i,
    {
        if let Some(resources) = &cs[i].resources {
            if resources.len() > 0 {
                match res {
                    None => {
                        assert(!clause_ok(cs@[i as int], rv, verbs@));
                        return false;
                    },
                    Some(granted) => {
                        if !all_present(granted, resources) {
                            assert(!clause_ok(cs@[i as int], rv, verbs@));
                            return false;
                        }
                        if !all_present(verbs, &cs[i].verbs) {
                            assert(!clause_ok(cs@[i as int], rv, verbs@));
                            return false;
                        }
                        if cs[i].verbs.len() > 0 {
                            checked = true;
                        }
                    },
                }
            }
        }
        i = i + 1;
    }
    checked
}

impl Rules {
    pub fn new(resources: Option<Vec<String>>, verbs: Vec<String>) -> (r: Self)
        ensures
            r.resources == resources,
            r.verbs == verbs,
    {
        Rules { resources, verbs }
    }
}

impl CheckItem {
    pub fn new(kind: Kind, rules: Option<Vec<Rules>>) -> (r: Self)
        ensures
            r.kind == kind,
            r.rules == rules,
    {
        CheckItem { kind, rules }
    }
}

/// The first subject of a binding, if it lists any.
pub open spec fn first_subject(b: Binding) -> Option<Subject> {
    match b.subjects {
        Some(v) => if v@.len() > 0 {
            Some(v@[0])
        } else {
            None
        },
        None => None,
    }
}

/// The namespace column: the binding's namespace, "default" when it has none.
pub open spec fn ns_text(ns: Option<String>) -> Seq<char> {
    match ns {
        Some(n) => n@,
        None => "default"@,
    }
}

/// A matched binding that has a subject to report.
pub open spec fn reportable(matched: bool, b: Binding) -> bool {
    matched && first_subject(b) is Some
}

/// A reportable binding whose first subject's kind is not recognised.
pub open spec fn bad_kind(matched: bool, b: Binding) -> bool {
    reportable(matched, b) && subkind_of(first_subject(b)->0.kind@) is None
}

impl RBInfo {
    /// Whether this record's capability set satisfies the clauses.
    pub open spec fn matched(self, rules: Option<Vec<Rules>>) -> bool {
        rules_match(rules, opt_seq(self.role_resources), self.role_verbs@)
    }
}

impl CRBInfo {
    /// Whether this record's capability set satisfies the clauses.
    pub open spec fn matched(self, rules: Option<Vec<Rules>>) -> bool {
        rules_match(rules, opt_seq(self.cluster_role_resources), self.cluster_role_verbs@)
    }
}

/// The namespaced records that are reported, in order.
pub open spec fn selected_r(rules: Option<Vec<Rules>>, infos: Seq<RBInfo>) -> Seq<RBInfo>
    decreases infos.len(),
{
    if infos.len() == 0 {
        Seq::empty()
    } else {
        selected_r(rules, infos.drop_last()) + if reportable(
            infos.last().matched(rules),
            infos.last().role_binding_info,
        ) {
            seq![infos.last()]
        } else {
            Seq::empty()
        }
    }
}

/// The cluster-scoped records that are reported, in order.
pub open spec fn selected_cr(rules: Option<Vec<Rules>>, infos: Seq<CRBInfo>) -> Seq<CRBInfo>
    decreases infos.len(),
{
    if infos.len() == 0 {
        Seq::empty()
    } else {
        selected_cr(rules, infos.drop_last()) + if reportable(
            infos.last().matched(rules),
            infos.last().cluster_role_binding_info,
        ) {
            seq![infos.last()]
        } else {
            Seq::empty()
        }
    }
}

/// Names of the matched namespaced bindings that list no subject, in order.
pub open spec fn skipped_r(rules: Option<Vec<Rules>>, infos: Seq<RBInfo>) -> Seq<String>
    decreases infos.len(),
{
    if infos.len() == 0 {
        Seq::empty()
    } else {
        skipped_r(rules, infos.drop_last()) + if infos.last().matched(rules) && first_subject(
            infos.last().role_binding_info,
        ) is None {
            seq![infos.last().role_binding_info.name]
        } else {
            Seq::empty()
        }
    }
}

/// Names of the matched cluster-scoped bindings that list no subject, in order.
pub open spec fn skipped_cr(rules: Option<Vec<Rules>>, infos: Seq<CRBInfo>) -> Seq<String>
    decreases infos.len(),
{
    if infos.len() == 0 {
        Seq::empty()
    } else {
        skipped_cr(rules, infos.drop_last()) + if infos.last().matched(rules) && first_subject(
            infos.last().cluster_role_binding_info,
        ) is None {
            seq![infos.last().cluster_role_binding_info.name]
        } else {
            Seq::empty()
        }
    }
}

/// `o` reports binding `b` under its first subject.
pub open spec fn out_r_of(o: OutR, b: Binding) -> bool {
    &&& o.rb == b.name
    &&& o.ns@ == ns_text(b.namespace)
    &&& o.r == b.role_name
    &&& o.age == b.creation_timestamp
    &&& o.subject == first_subject(b)->0.name
    &&& subkind_of(first_subject(b)->0.kind@) == Some(o.sub_kind)
}

/// `o` reports cluster binding `b` under its first subject.
pub open spec fn out_cr_of(o: OutCR, b: Binding) -> bool {
    &&& o.crb == b.name
    &&& o.r == b.role_name
    &&& o.age == b.creation_timestamp
    &&& o.subject == first_subject(b)->0.name
    &&& subkind_of(first_subject(b)->0.kind@) == Some(o.sub_kind)
}

/// No reportable namespaced record has an unrecognised subject kind.
pub open spec fn kinds_ok_r(rules: Option<Vec<Rules>>, infos: Seq<RBInfo>) -> bool {
    forall|i: int|
        0 <= i < infos.len() ==> !bad_kind(
            (#[trigger] infos[i]).matched(rules),
            infos[i].role_binding_info,
        )
}

/// No reportable cluster-scoped record has an unrecognised subject kind.
pub open spec fn kinds_ok_cr(rules: Option<Vec<Rules>>, infos: Seq<CRBInfo>) -> bool {
    forall|i: int|
        0 <= i < infos.len() ==> !bad_kind(
            (#[trigger] infos[i]).matched(rules),
            infos[i].cluster_role_binding_info,
        )
}

/// `v` is exactly the namespaced report of `infos`.
pub open spec fn report_r_is(rules: Option<Vec<Rules>>, infos: Seq<RBInfo>, v: Seq<OutR>) -> bool {
    &&& v.len() == selected_r(rules, infos).len()
    &&& forall|k: int|
        0 <= k < v.len() ==> out_r_of(#[trigger] v[k], selected_r(rules, infos)[k].role_binding_info)
}

/// `v` is exactly the cluster-scoped report of `infos`.
pub open spec fn report_cr_is(rules: Option<Vec<Rules>>, infos: Seq<CRBInfo>, v: Seq<OutCR>) -> bool {
    &&& v.len() == selected_cr(rules, infos).len()
    &&& forall|k: int|
        0 <= k < v.len() ==> out_cr_of(
            #[trigger] v[k],
            selected_cr(rules, infos)[k].cluster_role_binding_info,
        )
}

/// The error a report of these records fails with: the subject kind of the
/// first reportable record whose kind is not recognised.
pub open spec fn kind_error_r(rules: Option<Vec<Rules>>, infos: Seq<RBInfo>, e: CheckError) -> bool {
    exists|i: int|
        0 <= i < infos.len() && bad_kind((#[trigger] infos[i]).matched(rules), infos[i].role_binding_info)
            && kinds_ok_r(rules, infos.take(i))
            && e == CheckError::UnknownSubjectKind(first_subject(infos[i].role_binding_info)->0.kind)
}

/// The cluster-scoped counterpart of `kind_error_r`.
pub open spec fn kind_error_cr(rules: Option<Vec<Rules>>, infos: Seq<CRBInfo>, e: CheckError) -> bool {
    exists|i: int|
        0 <= i < infos.len() && bad_kind(
            (#[trigger] infos[i]).matched(rules),
            infos[i].cluster_role_binding_info,
        ) && kinds_ok_cr(rules, infos.take(i)) && e == CheckError::UnknownSubjectKind(
            first_subject(infos[i].cluster_role_binding_info)->0.kind,
        )
}

/// The first subject of a binding with its kind: `Ok(None)` when the binding
/// lists no subject, an error when the kind is not recognised.
pub fn subject_of(b: &Binding) -> (r: Result<Option<(String, SubKind)>, CheckError>)
    ensures
        first_subject(*b) is None ==> r == Ok::<Option<(String, SubKind)>, CheckError>(None),
        first_subject(*b) matches Some(s) ==> match subkind_of(s.kind@) {
            None => r == Err::<Option<(String, SubKind)>, CheckError>(
                CheckError::UnknownSubjectKind(s.kind),
            ),
            Some(k) => r == Ok::<Option<(String, SubKind)>, CheckError>(Some((s.name, k))),
        },
{
    match &b.subjects {
        None => Ok(None),
        Some(subjects) => {
            if subjects.len() == 0 {
                return Ok(None);
            }
            match SubKind::from_kind(&subjects[0].kind) {
                None => Err(CheckError::UnknownSubjectKind(subjects[0].kind.clone())),
                Some(k) => Ok(Some((subjects[0].name.clone(), k))),
            }
        },
    }
}

fn has_subject(b: &Binding) -> (r: bool)
    ensures
        r == (first_subject(*b) is Some),
{
    match &b.subjects {
        Some(v) => v.len() > 0,
        None => false,
    }
}

fn namespace_text(ns: &Option<String>) -> (r: String)
    ensures
        r@ == ns_text(*ns),
{
    match ns {
        Some(n) => n.clone(),
        None => String::from_str("default"),
    }
}

impl Check {
    /// Whether a namespaced record's capability set satisfies the clauses.
    pub fn check_r(rules: &Option<Vec<Rules>>, rbinfo: &RBInfo) -> (r: bool)
        ensures
            r == rbinfo.matched(*rules),
    {
        matches_rules(rules, &rbinfo.role_resources, &rbinfo.role_verbs)
    }

    /// Whether a cluster-scoped record's capability set satisfies the clauses.
    pub fn check_cr(rules: &Option<Vec<Rules>>, crbinfo: &CRBInfo) -> (r: bool)
        ensures
            r == crbinfo.matched(*rules),
    {
        matches_rules(rules, &crbinfo.cluster_role_resources, &crbinfo.cluster_role_verbs)
    }

    /// The names of the matched namespaced bindings that list no subject.
    pub fn skipped_names_r(rules: &Option<Vec<Rules>>, infos: &Vec<RBInfo>) -> (r: Vec<String>)
        ensures
            r@ == skipped_r(*rules, infos@),
    {
        let ghost all = infos@;
        let mut out: Vec<String> = Vec::new();
        let mut i: usize = 0;
        while i < infos.len()
            invariant
                i <= all.len(),
                all == infos@,
                out@ == skipped_r(*rules, all.take(i as int)),
            decreases all.len() - i,
        {
            assert(all.take(i + 1).drop_last() =~= all.take(i as int));
            assert(all.take(i + 1).last() == all[i as int]);
            let b = &infos[i].role_binding_info;
            if Self::check_r(rules, &infos[i]) && !has_subject(b) {
                out.push(b.name.clone());
            }
            i = i + 1;
        }
        assert(all.take(i as int) =~= all);
        out
    }

    /// The names of the matched cluster-scoped bindings that list no subject.
    pub fn skipped_names_cr(rules: &Option<Vec<Rules>>, infos: &Vec<CRBInfo>) -> (r: Vec<String>)
        ensures
            r@ == skipped_cr(*rules, infos@),
    {
        let ghost all = infos@;
        let mut out: Vec<String> = Vec::new();
        let mut i: usize = 0;
        while i < infos.len()
            invariant
                i <= all.len(),
                all == infos@,
                out@ == skipped_cr(*rules, all.take(i as int)),
            decreases all.len() - i,
        {
            assert(all.take(i + 1).drop_last() =~= all.take(i as int));
            assert(all.take(i + 1).last() == all[i as int]);
            let b = &infos[i].cluster_role_binding_info;
            if Self::check_cr(rules, &infos[i]) && !has_subject(b) {
                out.push(b.name.clone());
            }
            i = i + 1;
        }
        assert(all.take(i as int) =~= all);
        out
    }

    /// The namespaced match records for the clauses: one per matched binding
    /// that lists a subject, under its first subject, in order.
    pub fn report_r(rules: &Option<Vec<Rules>>, infos: &Vec<RBInfo>) -> (r: Result<
        Vec<OutR>,
        CheckError,
    >)
        ensures
            r is Ok <==> kinds_ok_r(*rules, infos@),
            r matches Ok(v) ==> report_r_is(*rules, infos@, v@),
            r matches Err(e) ==> kind_error_r(*rules, infos@, e),
    {
        let ghost all = infos@;
        let mut out: Vec<OutR> = Vec::new();
        let mut i: usize = 0;
        while i < infos.len()
            invariant
                i <= all.len(),
                all == infos@,
                kinds_ok_r(*rules, all.take(i as int)),
                report_r_is(*rules, all.take(i as int), out@),
            decreases all.len() - i,
        {
            let ghost pre = all.take(i as int);
            assert(all.take(i + 1).drop_last() =~= pre);
            assert(all.take(i + 1).last() == all[i as int]);
            let info = &infos[i];
            let b = &info.role_binding_info;
            if Self::check_r(rules, info) {
                match subject_of(b) {
                    Err(e) => {
                        assert(bad_kind(all[i as int].matched(*rules), all[i as int].role_binding_info));
                        return Err(e);
                    },
                    Ok(None) => {},
                    Ok(Some((subject, sub_kind))) => {
                        let o = OutR::new(
                            b.name.clone(),
                            namespace_text(&b.namespace),
                            b.role_name.clone(),
                            b.creation_timestamp,
                            subject,
                            sub_kind,
                        );
                        out.push(o);
                    },
                }
            }
            i = i + 1;
            assert(kinds_ok_r(*rules, all.take(i as int))) by {
                assert forall|j: int| 0 <= j < i implies !bad_kind(
                    (#[trigger] all.take(i as int)[j]).matched(*rules),
                    all.take(i as int)[j].role_binding_info,
                ) by {
                    if j < i - 1 {
                        assert(all.take(i as int)[j] == pre[j]);
                    }
                }
            }
        }
        assert(all.take(i as int) =~= all);
        Ok(out)
    }

    /// The cluster-scoped match records for the clauses: one per matched
    /// binding that lists a subject, under its first subject, in order.
    pub fn report_cr(rules: &Option<Vec<Rules>>, infos: &Vec<CRBInfo>) -> (r: Result<
        Vec<OutCR>,
        CheckError,
    >)
        ensures
            r is Ok <==> kinds_ok_cr(*rules, infos@),
            r matches Ok(v) ==> report_cr_is(*rules, infos@, v@),
            r matches Err(e) ==> kind_error_cr(*rules, infos@, e),
    {
        let ghost all = infos@;
        let mut out: Vec<OutCR> = Vec::new();
        let mut i: usize = 0;
        while i < infos.len()
            invariant
                i <= all.len(),
                all == infos@,
                kinds_ok_cr(*rules, all.take(i as int)),
                report_cr_is(*rules, all.take(i as int), out@),
            decreases all.len() - i,
        {
            let ghost pre = all.take(i as int);
            assert(all.take(i + 1).drop_last() =~= pre);
            assert(all.take(i + 1).last() == all[i as int]);
            let info = &infos[i];
            let b = &info.cluster_role_binding_info;
            if Self::check_cr(rules, info) {
                match subject_of(b) {
                    Err(e) => {
                        assert(bad_kind(
                            all[i as int].matched(*rules),
                            all[i as int].cluster_role_binding_info,
                        ));
                        return Err(e);
                    },
                    Ok(None) => {},
                    Ok(Some((subject, sub_kind))) => {
                        let o = OutCR::new(
                            b.name.clone(),
                            b.role_name.clone(),
                            b.creation_timestamp,
                            subject,
                            sub_kind,
                        );
                        out.push(o);
                    },
                }
            }
            i = i + 1;
            assert(kinds_ok_cr(*rules, all.take(i as int))) by {
                assert forall|j: int| 0 <= j < i implies !bad_kind(
                    (#[trigger] all.take(i as int)[j]).matched(*rules),
                    all.take(i as int)[j].cluster_role_binding_info,
                ) by {
                    if j < i - 1 {
                        assert(all.take(i as int)[j] == pre[j]);
                    }
                }
            }
        }
        assert(all.take(i as int) =~= all);
        Ok(out)
    }
}

/// Whether `rep` is what `item` yields on `access`: each scope the item
/// covers carries that scope's exact report, the other scope stays empty.
pub open spec fn item_report_is(item: CheckItem, access: Access, rep: ItemReport) -> bool {
    &&& if item.kind == Kind::ClusterRole {
        rep.namespaced@.len() == 0 && rep.skipped_namespaced@.len() == 0
    } else {
        &&& report_r_is(item.rules, access.rbinfo_list@, rep.namespaced@)
        &&& rep.skipped_namespaced@ == skipped_r(item.rules, access.rbinfo_list@)
    }
    &&& if item.kind == Kind::Role {
        rep.cluster@.len() == 0 && rep.skipped_cluster@.len() == 0
    } else {
        &&& report_cr_is(item.rules, access.crbinfo_list@, rep.cluster@)
        &&& rep.skipped_cluster@ == skipped_cr(item.rules, access.crbinfo_list@)
    }
}

/// Whether `item` evaluates on `access` without an unrecognised subject kind
/// in a scope it covers.
pub open spec fn item_ok(item: CheckItem, access: Access) -> bool {
    &&& item.kind != Kind::ClusterRole ==> kinds_ok_r(item.rules, access.rbinfo_list@)
    &&& item.kind != Kind::Role ==> kinds_ok_cr(item.rules, access.crbinfo_list@)
}

/// The error `item` fails with on `access`: the namespaced scope is
/// evaluated before the cluster-scoped one.
pub open spec fn item_error(item: CheckItem, access: Access, e: CheckError) -> bool {
    if item.kind != Kind::ClusterRole && !kinds_ok_r(item.rules, access.rbinfo_list@) {
        kind_error_r(item.rules, access.rbinfo_list@, e)
    } else {
        item.kind != Kind::Role && kind_error_cr(item.rules, access.crbinfo_list@, e)
    }
}

impl Check {
    /// Keys are unique.
    pub open spec fn wf(&self) -> bool {
        forall|i: int, j: int|
            0 <= i < j < self.itemlist@.len() ==> (#[trigger] self.itemlist@[i]).0@
                != (#[trigger] self.itemlist@[j]).0@
    }

    /// An empty policy.
    pub fn new() -> (r: Self)
        ensures
            r.wf(),
            r.itemlist@.len() == 0,
    {
        Check { itemlist: Vec::new() }
    }

    fn position(&self, key: &String) -> (r: Option<usize>)
        ensures
            r matches Some(i) ==> i < self.itemlist@.len() && self.itemlist@[i as int].0@ == key@,
            r is None ==> forall|j: int|
                0 <= j < self.itemlist@.len() ==> (#[trigger] self.itemlist@[j]).0@ != key@,
    {
        let mut i: usize = 0;
        while i < self.itemlist.len()
            invariant
                i <= self.itemlist@.len(),
                forall|j: int| 0 <= j < i ==> (#[trigger] self.itemlist@[j]).0@ != key@,
            decreases self.itemlist@.len() - i,
        {
            if self.itemlist[i].0 == *key {
                return Some(i);
            }
            i = i + 1;
        }
        None
    }

    /// Stores `item` under `key`, replacing the item already stored under an
    /// equal key in place, else appending it.
    pub fn add(&mut self, key: String, item: CheckItem)
        requires
            old(self).wf(),
        ensures
            final(self).wf(),
            (exists|i: int|
                0 <= i < old(self).itemlist@.len() && (#[trigger] old(self).itemlist@[i]).0@ == key@)
                ==> exists|i: int|
                0 <= i < old(self).itemlist@.len() && (#[trigger] old(self).itemlist@[i]).0@ == key@
                    && final(self).itemlist@ == old(self).itemlist@.update(i, (key, item)),
            (forall|i: int|
                0 <= i < old(self).itemlist@.len() ==> (#[trigger] old(self).itemlist@[i]).0@ != key@)
                ==> final(self).itemlist@ == old(self).itemlist@.push((key, item)),
    {
        match self.position(&key) {
            Some(i) => {
                self.itemlist.set(i, (key, item));
            },
            None => {
                self.itemlist.push((key, item));
            },
        }
    }

    /// The names of all check items, in order.
    pub fn get_check(&self) -> (r: Result<Vec<String>, CheckError>)
        ensures
            r matches Ok(v) && v@.len() == self.itemlist@.len() && forall|k: int|
                0 <= k < v@.len() ==> #[trigger] v@[k] == self.itemlist@[k].0,
    {
        let mut out: Vec<String> = Vec::new();
        let mut i: usize = 0;
        while i < self.itemlist.len()
            invariant
                i <= self.itemlist@.len(),
                out@.len() == i,
                forall|k: int| 0 <= k < i ==> #[trigger] out@[k] == self.itemlist@[k].0,
            decreases self.itemlist@.len() - i,
        {
            out.push(self.itemlist[i].0.clone());
            i = i + 1;
        }
        Ok(out)
    }

    /// The check item stored under `key`; an error when there is none.
    pub fn get_check_item(&self, key: &str) -> (r: Result<&CheckItem, CheckError>)
        ensures
            r is Ok <==> exists|i: int|
                0 <= i < self.itemlist@.len() && (#[trigger] self.itemlist@[i]).0@ == key@,
            r matches Ok(it) ==> exists|i: int|
                0 <= i < self.itemlist@.len() && (#[trigger] self.itemlist@[i]).0@ == key@ && *it
                    == self.itemlist@[i].1,
            r matches Err(e) ==> e matches CheckError::MissingItem(k) && k@ == key@,
    {
        let k = String::from_str(key);
        match self.position(&k) {
            Some(i) => Ok(&self.itemlist[i].1),
            None => Err(CheckError::MissingItem(k)),
        }
    }

    /// Evaluates one check item against the snapshot, in the scopes its kind
    /// selects.
    pub fn check_item(item: &CheckItem, access: &Access) -> (r: Result<ItemReport, CheckError>)
        ensures
            r is Ok <==> item_ok(*item, *access),
            r matches Ok(rep) ==> item_report_is(*item, *access, rep),
            r matches Err(e) ==> item_error(*item, *access, e),
    {
        let (namespaced, skipped_namespaced) = match item.kind {
            Kind::ClusterRole => (Vec::new(), Vec::new()),
            _ => (
                Self::report_r(&item.rules, &access.rbinfo_list)?,
                Self::skipped_names_r(&item.rules, &access.rbinfo_list),
            ),
        };
        let (cluster, skipped_cluster) = match item.kind {
            Kind::Role => (Vec::new(), Vec::new()),
            _ => (
                Self::report_cr(&item.rules, &access.crbinfo_list)?,
                Self::skipped_names_cr(&item.rules, &access.crbinfo_list),
            ),
        };
        Ok(ItemReport { namespaced, cluster, skipped_namespaced, skipped_cluster })
    }

    /// Evaluates every check item, in order, against the snapshot; the first
    /// unrecognised subject kind aborts the whole evaluation.
    pub fn run(&self, access: &Access) -> (r: Result<Vec<(String, ItemReport)>, CheckError>)
        ensures
            r is Ok <==> forall|k: int|
                0 <= k < self.itemlist@.len() ==> item_ok((#[trigger] self.itemlist@[k]).1, *access),
            r matches Ok(v) ==> v@.len() == self.itemlist@.len() && forall|k: int|
                0 <= k < v@.len() ==> (#[trigger] v@[k]).0 == self.itemlist@[k].0
                    && item_report_is(self.itemlist@[k].1, *access, v@[k].1),
            r matches Err(e) ==> exists|k: int|
                0 <= k < self.itemlist@.len() && item_error(
                    (#[trigger] self.itemlist@[k]).1,
                    *access,
                    e,
                ) && forall|j: int| 0 <= j < k ==> item_ok(#[trigger] self.itemlist@[j].1, *access),
    {
        let mut out: Vec<(String, ItemReport)> = Vec::new();
        let mut i: usize = 0;
        while i < self.itemlist.len()
            invariant
                i <= self.itemlist@.len(),
                out@.len() == i,
                forall|k: int| 0 <= k < i ==> item_ok((#[trigger] self.itemlist@[k]).1, *access),
                forall|k: int|
                    0 <= k < i ==> (#[trigger] out@[k]).0 == self.itemlist@[k].0
                        && item_report_is(self.itemlist@[k].1, *access, out@[k].1),
            decreases self.itemlist@.len() - i,
        {
            let rep = match Self::check_item(&self.itemlist[i].1, access) {
                Ok(rep) => rep,
                Err(e) => {
                    assert(!item_ok(self.itemlist@[i as int].1, *access));
                    return Err(e);
                },
            };
            out.push((self.itemlist[i].0.clone(), rep));
            i = i + 1;
        }
        Ok(out)
    }
}

/// An item without a clause list matches nothing, and neither does an item
/// whose clause list is empty, whatever the capability set.
pub proof fn lemma_no_rules_no_match(
    empty: Vec<Rules>,
    res: Option<Seq<String>>,
    verbs: Seq<String>,
)
    requires
        empty@.len() == 0,
    ensures
        !rules_match(None, res, verbs),
        !rules_match(Some(empty), res, verbs),
{
}

/// A check item scoped to cluster role bindings yields no namespaced record,
/// one scoped to role bindings no cluster-scoped record, whatever the snapshot.
pub proof fn lemma_scope_respected(item: CheckItem, access: Access, rep: ItemReport)
    requires
        item_report_is(item, access, rep),
    ensures
        item.kind == Kind::ClusterRole ==> rep.namespaced@.len() == 0,
        item.kind == Kind::Role ==> rep.cluster@.len() == 0,
{
}

/// A matched binding without subjects adds no record to the report and
/// cannot make the evaluation fail.
pub proof fn lemma_no_subject_no_record(
    rules: Option<Vec<Rules>>,
    infos: Seq<RBInfo>,
    info: RBInfo,
)
    requires
        first_subject(info.role_binding_info) is None,
    ensures
        selected_r(rules, infos.push(info)) == selected_r(rules, infos),
        kinds_ok_r(rules, infos.push(info)) == kinds_ok_r(rules, infos),
{
    assert(infos.push(info).drop_last() =~= infos);
    if kinds_ok_r(rules, infos) {
        assert forall|i: int| 0 <= i < infos.push(info).len() implies !bad_kind(
            (#[trigger] infos.push(info)[i]).matched(rules),
            infos.push(info)[i].role_binding_info,
        ) by {
            if i < infos.len() {
                assert(infos.push(info)[i] == infos[i]);
            }
        }
    }
    if kinds_ok_r(rules, infos.push(info)) {
        assert forall|i: int| 0 <= i < infos.len() implies !bad_kind(
            (#[trigger] infos[i]).matched(rules),
            infos[i].role_binding_info,
        ) by {
            assert(infos.push(info)[i] == infos[i]);
        }
    }
}

/// The cluster-scoped counterpart: a matched cluster binding without
/// subjects adds no record and cannot make the evaluation fail.
pub proof fn lemma_no_subject_no_cluster_record(
    rules: Option<Vec<Rules>>,
    infos: Seq<CRBInfo>,
    info: CRBInfo,
)
    requires
        first_subject(info.cluster_role_binding_info) is None,
    ensures
        selected_cr(rules, infos.push(info)) == selected_cr(rules, infos),
        kinds_ok_cr(rules, infos.push(info)) == kinds_ok_cr(rules, infos),
{
    assert(infos.push(info).drop_last() =~= infos);
    if kinds_ok_cr(rules, infos) {
        assert forall|i: int| 0 <= i < infos.push(info).len() implies !bad_kind(
            (#[trigger] infos.push(info)[i]).matched(rules),
            infos.push(info)[i].cluster_role_binding_info,
        ) by {
            if i < infos.len() {
                assert(infos.push(info)[i] == infos[i]);
            }
        }
    }
    if kinds_ok_cr(rules, infos.push(info)) {
        assert forall|i: int| 0 <= i < infos.len() implies !bad_kind(
            (#[trigger] infos[i]).matched(rules),
            infos[i].cluster_role_binding_info,
        ) by {
            assert(infos.push(info)[i] == infos[i]);
        }
    }
}

} // verus!
