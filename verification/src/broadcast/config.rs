//! The table of services that a broadcaster advertises: an ordered set, in
//! which a service is found by its type and its name.

use super::errors::ServiceDnsPacketBuilderError;
use super::service::{
    spec_fits, spec_service_record, Service, ServiceDnsResponse, ServiceRecordView, ServiceView,
};
use crate::bytes::{
    bytes_eq, lemma_lex_irreflexive, lemma_lex_total, lemma_lex_transitive, lex_lt, spec_lex_lt,
};
use crate::errors::BadDnsNameError;
use crate::name::{spec_into_fqdn, DnsName, DnsNameView, IntoDnsName};
use vstd::prelude::*;

verus! {

/// What identifies a service in the table: the folded text of its type and
/// of its name.
pub open spec fn spec_identity(service: ServiceView) -> (Seq<u8>, Seq<u8>) {
    (service.service_type.folded, service.service_name.folded)
}

/// The order of the table: by type first, then by name, each compared byte
/// by byte.
pub open spec fn spec_identity_lt(a: (Seq<u8>, Seq<u8>), b: (Seq<u8>, Seq<u8>)) -> bool {
    spec_lex_lt(a.0, b.0) || (a.0 == b.0 && spec_lex_lt(a.1, b.1))
}

/// Nothing comes before itself.
pub proof fn lemma_identity_irreflexive(a: (Seq<u8>, Seq<u8>))
    ensures
        !spec_identity_lt(a, a),
{
    lemma_lex_irreflexive(a.0, 0);
    lemma_lex_irreflexive(a.1, 0);
}

/// The order is transitive.
pub proof fn lemma_identity_transitive(
    a: (Seq<u8>, Seq<u8>),
    b: (Seq<u8>, Seq<u8>),
    c: (Seq<u8>, Seq<u8>),
)
    requires
        spec_identity_lt(a, b),
        spec_identity_lt(b, c),
    ensures
        spec_identity_lt(a, c),
{
    if spec_lex_lt(a.0, b.0) && spec_lex_lt(b.0, c.0) {
        lemma_lex_transitive(a.0, b.0, c.0, 0);
    } else if a.0 == b.0 && b.0 == c.0 {
        lemma_lex_transitive(a.1, b.1, c.1, 0);
    }
}

/// Of two identities one comes before the other, or they are the same.
pub proof fn lemma_identity_total(a: (Seq<u8>, Seq<u8>), b: (Seq<u8>, Seq<u8>))
    ensures
        spec_identity_lt(a, b) || spec_identity_lt(b, a) || a == b,
{
    lemma_lex_total(a.0, b.0, 0);
    lemma_lex_total(a.1, b.1, 0);
}

/// Whether the records stand in strictly ascending order of identity, so
/// that no identity occurs twice.
pub open spec fn spec_ordered(records: Seq<ServiceRecordView>) -> bool {
    forall|i: int, j: int|
        0 <= i < j < records.len() ==> spec_identity_lt(
            spec_identity(#[trigger] records[i].service),
            spec_identity(#[trigger] records[j].service),
        )
}

/// Whether a record holds what is kept for its service.
pub open spec fn spec_record_wf(record: ServiceRecordView) -> bool {
    spec_fits(record.service) && record == spec_service_record(record.service)
}

/// Whether a table is well formed: ordered, and each record the one of its
/// service.
pub open spec fn spec_table_wf(records: Seq<ServiceRecordView>) -> bool {
    &&& spec_ordered(records)
    &&& forall|i: int| 0 <= i < records.len() ==> spec_record_wf(#[trigger] records[i])
}

/// Whether a table holds a service of the type and name of this one.
pub open spec fn spec_holds(records: Seq<ServiceRecordView>, service: ServiceView) -> bool {
    exists|held: ServiceRecordView|
        records.contains(held) && spec_identity(held.service) == spec_identity(service)
}

/// Whether `after` is the table that adding a service to `before` gives:
/// the service's record is in it, and of the records of `before` those of
/// another identity.
pub open spec fn spec_added(
    before: Seq<ServiceRecordView>,
    service: ServiceView,
    after: Seq<ServiceRecordView>,
) -> bool {
    &&& spec_table_wf(after)
    &&& forall|r: ServiceRecordView|
        after.contains(r) <==> (r == spec_service_record(service) || (before.contains(r)
            && spec_identity(r.service) != spec_identity(service)))
}

/// Which services a removal takes out of the table.
pub enum Selector<'a> {
    /// The service of this type and this name.
    Named(&'a DnsName, &'a DnsName),
    /// Every service of this type.
    Type(&'a DnsName),
}

/// A selection as mathematical values.
pub enum SelectorView {
    /// The service of this type and this name.
    Named(DnsNameView, DnsNameView),
    /// Every service of this type.
    Type(DnsNameView),
}

impl<'a> View for Selector<'a> {
    type V = SelectorView;

    open spec fn view(&self) -> SelectorView {
        match *self {
            Selector::Named(ty, name) => SelectorView::Named(ty@, name@),
            Selector::Type(ty) => SelectorView::Type(ty@),
        }
    }
}

/// Whether a selection takes a service out. Names are the same when their
/// folded texts are.
pub open spec fn spec_selected(selector: SelectorView, service: ServiceView) -> bool {
    match selector {
        SelectorView::Named(ty, name) => service.service_type.folded == ty.folded
            && service.service_name.folded == name.folded,
        SelectorView::Type(ty) => service.service_type.folded == ty.folded,
    }
}

/// The selection of the service with the type and the name that two pieces
/// of text stand for.
pub open spec fn spec_named(service_type: Seq<u8>, service_name: Seq<u8>) -> SelectorView {
    SelectorView::Named(
        spec_into_fqdn(service_type).unwrap(),
        spec_into_fqdn(service_name).unwrap(),
    )
}

/// Whether `after` is what a removal leaves of `before`: the records that
/// the selection does not take, in their order.
pub open spec fn spec_removed(
    before: Seq<ServiceRecordView>,
    selector: SelectorView,
    after: Seq<ServiceRecordView>,
) -> bool {
    &&& spec_table_wf(after)
    &&& forall|r: ServiceRecordView|
        after.contains(r) <==> (before.contains(r) && !spec_selected(selector, r.service))
}

/// Whether a selection takes anything out of a table.
pub open spec fn spec_any_selected(records: Seq<ServiceRecordView>, selector: SelectorView) -> bool {
    exists|r: ServiceRecordView| records.contains(r) && spec_selected(selector, r.service)
}

/// Two ordered tables that hold the same records are the same table.
pub proof fn lemma_ordered_unique(a: Seq<ServiceRecordView>, b: Seq<ServiceRecordView>)
    requires
        spec_ordered(a),
        spec_ordered(b),
        forall|r: ServiceRecordView| a.contains(r) <==> b.contains(r),
    ensures
        a == b,
    decreases a.len(),
{
    if a.len() == 0 {
        if b.len() > 0 {
            assert(b.contains(b[0]));
        }
        assert(a =~= b);
    } else if b.len() == 0 {
        assert(a.contains(a[0]));
    } else {
        let la = a.last();
        let lb = b.last();
        assert(a.contains(la));
        assert(b.contains(lb));
        let k = choose|k: int| 0 <= k < b.len() && b[k] == la;
        let m = choose|m: int| 0 <= m < a.len() && a[m] == lb;
        if k < b.len() - 1 {
            if m < a.len() - 1 {
                lemma_identity_transitive(
                    spec_identity(b[k].service),
                    spec_identity(a[m].service),
                    spec_identity(la.service),
                );
            }
            lemma_identity_irreflexive(spec_identity(la.service));
        }
        assert(la == lb);
        let a1 = a.drop_last();
        let b1 = b.drop_last();
        assert forall|r: ServiceRecordView| a1.contains(r) <==> b1.contains(r) by {
            lemma_identity_irreflexive(spec_identity(r.service));
            if a1.contains(r) {
                let x = choose|x: int| 0 <= x < a1.len() && a1[x] == r;
                assert(a[x] == r);
                assert(a.contains(r));
                let y = choose|y: int| 0 <= y < b.len() && b[y] == r;
                assert(y < b.len() - 1);
                assert(b1[y] == r);
            }
            if b1.contains(r) {
                let y = choose|y: int| 0 <= y < b1.len() && b1[y] == r;
                assert(b[y] == r);
                assert(b.contains(r));
                let x = choose|x: int| 0 <= x < a.len() && a[x] == r;
                assert(x < a.len() - 1);
                assert(a1[x] == r);
            }
        }
        assert forall|i: int, j: int| 0 <= i < j < a1.len() implies spec_identity_lt(
            spec_identity(#[trigger] a1[i].service),
            spec_identity(#[trigger] a1[j].service),
        ) by {
            assert(a1[i] == a[i] && a1[j] == a[j]);
        }
        assert forall|i: int, j: int| 0 <= i < j < b1.len() implies spec_identity_lt(
            spec_identity(#[trigger] b1[i].service),
            spec_identity(#[trigger] b1[j].service),
        ) by {
            assert(b1[i] == b[i] && b1[j] == b[j]);
        }
        lemma_ordered_unique(a1, b1);
        assert(a =~= a1.push(la));
        assert(b =~= b1.push(lb));
    }
}

/// Adding a service once more changes nothing: the table after the second
/// addition is the table after the first.
pub proof fn lemma_add_service_idempotent(
    before: Seq<ServiceRecordView>,
    service: ServiceView,
    once: Seq<ServiceRecordView>,
    twice: Seq<ServiceRecordView>,
)
    requires
        spec_added(before, service, once),
        spec_added(once, service, twice),
    ensures
        twice == once,
{
    lemma_ordered_unique(once, twice);
}

/// What a table holds after an addition is determined: no two tables are
/// the outcome of adding one service to one table.
pub proof fn lemma_add_service_determined(
    before: Seq<ServiceRecordView>,
    service: ServiceView,
    one: Seq<ServiceRecordView>,
    other: Seq<ServiceRecordView>,
)
    requires
        spec_added(before, service, one),
        spec_added(before, service, other),
    ensures
        one == other,
{
    lemma_ordered_unique(one, other);
}

/// What a table holds after a removal is determined, and a removal that
/// takes nothing leaves the table as it was.
pub proof fn lemma_remove_determined(
    before: Seq<ServiceRecordView>,
    selector: SelectorView,
    one: Seq<ServiceRecordView>,
    other: Seq<ServiceRecordView>,
)
    requires
        spec_removed(before, selector, one),
        spec_removed(before, selector, other),
    ensures
        one == other,
        spec_table_wf(before) && !spec_any_selected(before, selector) ==> one == before,
{
    lemma_ordered_unique(one, other);
    if spec_table_wf(before) && !spec_any_selected(before, selector) {
        lemma_ordered_unique(one, before);
    }
}

/// The records of a list as mathematical values.
pub open spec fn spec_record_views(records: Seq<ServiceDnsResponse>) -> Seq<ServiceRecordView> {
    Seq::new(records.len(), |i: int| records[i]@)
}

/// Whether the identity of `a` comes before that of `b`.
fn identity_precedes(a: &Service, b: &Service) -> (r: bool)
    ensures
        r == spec_identity_lt(spec_identity(a@), spec_identity(b@)),
{
    if lex_lt(a.service_type().folded(), b.service_type().folded()) {
        true
    } else if bytes_eq(a.service_type().folded(), b.service_type().folded()) {
        lex_lt(a.service_name().folded(), b.service_name().folded())
    } else {
        false
    }
}

/// Whether two services have the same identity.
fn same_identity(a: &Service, b: &Service) -> (r: bool)
    ensures
        r == (spec_identity(a@) == spec_identity(b@)),
{
    bytes_eq(a.service_type().folded(), b.service_type().folded()) && bytes_eq(
        a.service_name().folded(),
        b.service_name().folded(),
    )
}

/// Whether a selection takes a service out.
fn selected(selector: &Selector<'_>, service: &Service) -> (r: bool)
    ensures
        r == spec_selected(selector@, service@),
{
    match selector {
        Selector::Named(ty, name) => bytes_eq(service.service_type().folded(), ty.folded())
            && bytes_eq(service.service_name().folded(), name.folded()),
        Selector::Type(ty) => bytes_eq(service.service_type().folded(), ty.folded()),
    }
}

/// The services of a broadcaster, each with its response.
#[derive(Debug)]
pub struct BroadcasterConfig {
    services: Vec<ServiceDnsResponse>,
}

impl View for BroadcasterConfig {
    type V = Seq<ServiceRecordView>;

    closed spec fn view(&self) -> Seq<ServiceRecordView> {
        spec_record_views(self.services@)
    }
}

impl BroadcasterConfig {
    /// Whether the table is an ordered set of records.
    pub open spec fn wf(&self) -> bool {
        spec_table_wf(self@)
    }

    /// A table without services.
    pub fn new() -> (r: Self)
        ensures
            r.wf(),
            r@.len() == 0,
    {
        BroadcasterConfig { services: Vec::new() }
    }

    /// The records of the table, in order.
    pub fn services(&self) -> (r: &Vec<ServiceDnsResponse>)
        ensures
            spec_record_views(r@) == self@,
    {
        &self.services
    }

    /// The number of services in the table.
    pub fn len(&self) -> (r: usize)
        ensures
            r == self@.len(),
    {
        self.services.len()
    }

    /// Whether the table holds a service of the type and name of this one.
    pub fn holds_identity(&self, service: &Service) -> (r: bool)
        ensures
            r == spec_holds(self@, service@),
    {
        let mut i: usize = 0;
        while i < self.services.len()
            invariant
                0 <= i <= self.services@.len(),
                forall|k: int|
                    0 <= k < i ==> spec_identity((#[trigger] self@[k]).service) != spec_identity(
                        service@,
                    ),
            decreases self.services@.len() - i,
        {
            if same_identity(self.services[i].service(), service) {
                assert(self@.contains(self@[i as int]));
                return true;
            }
            i += 1;
        }
        proof {
            if exists|held: ServiceRecordView|
                self@.contains(held) && spec_identity(held.service) == spec_identity(service@) {
                let held = choose|held: ServiceRecordView|
                    self@.contains(held) && spec_identity(held.service) == spec_identity(
                        service@,
                    );
                let k = choose|k: int| 0 <= k < self@.len() && self@[k] == held;
                assert(spec_identity(self@[k].service) != spec_identity(service@));
            }
        }
        false
    }

    /// Adds a service to the table, in place of the one of the same type
    /// and name if there is one. A service with too many addresses for one
    /// message is refused, and the table stays as it was.
    pub fn add_service(&mut self, service: Service) -> (r: Result<(), ServiceDnsPacketBuilderError>)
        requires
            old(self).wf(),
        ensures
            match r {
                Ok(()) => spec_fits(service@) && spec_added(old(self)@, service@, final(self)@),
                Err(err) => !spec_fits(service@) && err
                    == ServiceDnsPacketBuilderError::TooManyIpAddresses && final(self)@ == old(
                    self,
                )@,
            },
    {
        let record = match ServiceDnsResponse::try_from(service) {
            Ok(record) => record,
            Err(err) => {
                return Err(err);
            },
        };
        let ghost before = self@;
        let ghost added = record@;
        let ghost id = spec_identity(service@);
        let mut i: usize = 0;
        while i < self.services.len() && identity_precedes(self.services[i].service(), record.service())
            invariant
                0 <= i <= self.services@.len(),
                self@ == before,
                record@ == added,
                added.service == service@,
                id == spec_identity(service@),
                forall|k: int|
                    0 <= k < i ==> spec_identity_lt(
                        spec_identity(#[trigger] before[k].service),
                        id,
                    ),
            decreases self.services@.len() - i,
        {
            i += 1;
        }
        let replace = i < self.services.len() && same_identity(
            self.services[i].service(),
            record.service(),
        );
        if replace {
            self.services.set(i, record);
            proof {
                let after = self@;
                assert(after =~= before.update(i as int, added));
                assert forall|x: int, y: int| 0 <= x < y < after.len() implies spec_identity_lt(
                    spec_identity(#[trigger] after[x].service),
                    spec_identity(#[trigger] after[y].service),
                ) by {
                    assert(spec_identity(after[x].service) == spec_identity(before[x].service));
                    assert(spec_identity(after[y].service) == spec_identity(before[y].service));
                }
                assert forall|r: ServiceRecordView|
                    after.contains(r) <==> (r == added || (before.contains(r) && spec_identity(
                        r.service,
                    ) != id)) by {
                    if after.contains(r) {
                        let k = choose|k: int| 0 <= k < after.len() && after[k] == r;
                        if k != i {
                            assert(before[k] == r);
                            if k < i {
                                lemma_identity_irreflexive(id);
                            } else {
                                assert(spec_identity_lt(
                                    spec_identity(before[i as int].service),
                                    spec_identity(before[k].service),
                                ));
                                lemma_identity_irreflexive(id);
                            }
                        }
                    }
                    if r == added {
                        assert(after[i as int] == r);
                    }
                    if before.contains(r) && spec_identity(r.service) != id {
                        let k = choose|k: int| 0 <= k < before.len() && before[k] == r;
                        assert(k != i);
                        assert(after[k] == r);
                    }
                }
            }
        } else {
            self.services.insert(i, record);
            proof {
                let after = self@;
                assert(after =~= before.insert(i as int, added));
                if i < before.len() {
                    lemma_identity_total(spec_identity(before[i as int].service), id);
                }
                assert forall|k: int| i <= k < before.len() implies spec_identity_lt(
                    id,
                    spec_identity(#[trigger] before[k].service),
                ) by {
                    if k > i {
                        lemma_identity_transitive(
                            id,
                            spec_identity(before[i as int].service),
                            spec_identity(before[k].service),
                        );
                    }
                }
                assert forall|x: int, y: int| 0 <= x < y < after.len() implies spec_identity_lt(
                    spec_identity(#[trigger] after[x].service),
                    spec_identity(#[trigger] after[y].service),
                ) by {
                    if y == i {
                        assert(after[x] == before[x]);
                    } else if x == i {
                        assert(after[y] == before[y - 1]);
                    } else if x < i && y > i {
                        assert(after[x] == before[x]);
                        assert(after[y] == before[y - 1]);
                        assert(x < y - 1);
                    } else if y < i {
                        assert(after[x] == before[x]);
                        assert(after[y] == before[y]);
                    } else {
                        assert(after[x] == before[x - 1]);
                        assert(after[y] == before[y - 1]);
                    }
                }
                assert forall|k: int| 0 <= k < after.len() implies spec_record_wf(
                    #[trigger] after[k],
                ) by {
                    if k < i {
                        assert(after[k] == before[k]);
                    } else if k > i {
                        assert(after[k] == before[k - 1]);
                    }
                }
                assert forall|r: ServiceRecordView|
                    after.contains(r) <==> (r == added || (before.contains(r) && spec_identity(
                        r.service,
                    ) != id)) by {
                    if after.contains(r) {
                        let k = choose|k: int| 0 <= k < after.len() && after[k] == r;
                        lemma_identity_irreflexive(id);
                        if k < i {
                            assert(before[k] == r);
                        } else if k > i {
                            assert(before[k - 1] == r);
                        }
                    }
                    if r == added {
                        assert(after[i as int] == r);
                    }
                    if before.contains(r) && spec_identity(r.service) != id {
                        let k = choose|k: int| 0 <= k < before.len() && before[k] == r;
                        if k < i {
                            assert(after[k] == r);
                        } else {
                            assert(after[k + 1] == r);
                        }
                    }
                }
            }
        }
        Ok(())
    }

    /// Takes out of the table the services that a selection names, and
    /// tells whether there was one.
    pub fn remove_selected(&mut self, selector: &Selector<'_>) -> (found: bool)
        requires
            old(self).wf(),
        ensures
            spec_removed(old(self)@, selector@, final(self)@),
            found == spec_any_selected(old(self)@, selector@),
            !found ==> final(self)@ == old(self)@,
    {
        let ghost before = self@;
        let mut found = false;
        let mut i: usize = 0;
        while i < self.services.len()
            invariant
                0 <= i <= self.services@.len(),
                spec_table_wf(self@),
                forall|r: ServiceRecordView| self@.contains(r) ==> before.contains(r),
                forall|r: ServiceRecordView|
                    before.contains(r) && !spec_selected(selector@, r.service) ==> self@.contains(
                        r,
                    ),
                forall|k: int| 0 <= k < i ==> !spec_selected(selector@, (#[trigger] self@[k]).service),
                found ==> spec_any_selected(before, selector@),
                !found ==> self@ == before,
            decreases self.services@.len() - i,
        {
            if selected(selector, self.services[i].service()) {
                let ghost current = self@;
                assert(current.contains(current[i as int]));
                self.services.remove(i);
                proof {
                    let after = self@;
                    assert(after =~= current.remove(i as int));
                    assert forall|x: int, y: int|
                        0 <= x < y < after.len() implies spec_identity_lt(
                        spec_identity(#[trigger] after[x].service),
                        spec_identity(#[trigger] after[y].service),
                    ) by {
                        let cx = if x < i { x } else { x + 1 };
                        let cy = if y < i { y } else { y + 1 };
                        assert(after[x] == current[cx]);
                        assert(after[y] == current[cy]);
                    }
                    assert forall|k: int| 0 <= k < after.len() implies spec_record_wf(
                        #[trigger] after[k],
                    ) by {
                        let ck = if k < i { k } else { k + 1 };
                        assert(after[k] == current[ck]);
                    }
                    assert forall|r: ServiceRecordView| after.contains(r) implies before.contains(
                        r,
                    ) by {
                        let k = choose|k: int| 0 <= k < after.len() && after[k] == r;
                        let ck = if k < i { k } else { k + 1 };
                        assert(current[ck] == r);
                    }
                    assert forall|r: ServiceRecordView|
                        before.contains(r) && !spec_selected(
                            selector@,
                            r.service,
                        ) implies after.contains(r) by {
                        assert(current.contains(r));
                        let k = choose|k: int| 0 <= k < current.len() && current[k] == r;
                        assert(k != i);
                        if k < i {
                            assert(after[k] == r);
                        } else {
                            assert(after[k - 1] == r);
                        }
                    }
                    assert forall|k: int| 0 <= k < i implies !spec_selected(
                        selector@,
                        (#[trigger] after[k]).service,
                    ) by {
                        assert(after[k] == current[k]);
                    }
                }
                found = true;
            } else {
                i += 1;
            }
        }
        proof {
            let after = self@;
            assert forall|r: ServiceRecordView|
                after.contains(r) <==> (before.contains(r) && !spec_selected(
                    selector@,
                    r.service,
                )) by {
                if after.contains(r) {
                    let k = choose|k: int| 0 <= k < after.len() && after[k] == r;
                    assert(!spec_selected(selector@, after[k].service));
                }
            }
            if !found && spec_any_selected(before, selector@) {
                let r = choose|r: ServiceRecordView|
                    before.contains(r) && spec_selected(selector@, r.service);
                let k = choose|k: int| 0 <= k < after.len() && after[k] == r;
                assert(!spec_selected(selector@, after[k].service));
            }
        }
        found
    }

    /// Removes a service from the table, finding it by type and name.
    ///
    /// Returns `true` if the service was found and removed, and `false` if
    /// it was not found. Where one of the two is no DNS name, nothing is
    /// removed.
    pub fn remove_named_service<T: IntoDnsName, N: IntoDnsName>(
        &mut self,
        service_type: T,
        service_name: N,
    ) -> (r: Result<bool, BadDnsNameError>)
        requires
            old(self).wf(),
        ensures
            match r {
                Ok(found) => {
                    &&& spec_into_fqdn(service_type.spec_text()) is Some
                    &&& spec_into_fqdn(service_name.spec_text()) is Some
                    &&& spec_removed(
                        old(self)@,
                        spec_named(service_type.spec_text(), service_name.spec_text()),
                        final(self)@,
                    )
                    &&& found == spec_any_selected(
                        old(self)@,
                        spec_named(service_type.spec_text(), service_name.spec_text()),
                    )
                    &&& !found ==> final(self)@ == old(self)@
                },
                Err(_) => final(self)@ == old(self)@ && (spec_into_fqdn(service_type.spec_text())
                    is None || spec_into_fqdn(service_name.spec_text()) is None),
            },
    {
        let ty = match service_type.into_fqdn() {
            Ok(name) => name,
            Err(err) => {
                return Err(err);
            },
        };
        let name = match service_name.into_fqdn() {
            Ok(name) => name,
            Err(err) => {
                return Err(err);
            },
        };
        let found = self.remove_selected(&Selector::Named(&ty, &name));
        Ok(found)
    }

    /// Removes the services of a type from the table.
    ///
    /// Returns `true` if a service was found and removed, and `false` if
    /// none was found. Where the type is no DNS name, nothing is removed.
    pub fn remove_service_type<T: IntoDnsName>(&mut self, service_type: T) -> (r: Result<
        bool,
        BadDnsNameError,
    >)
        requires
            old(self).wf(),
        ensures
            match r {
                Ok(found) => {
                    &&& spec_into_fqdn(service_type.spec_text()) is Some
                    &&& spec_removed(
                        old(self)@,
                        SelectorView::Type(spec_into_fqdn(service_type.spec_text()).unwrap()),
                        final(self)@,
                    )
                    &&& found == spec_any_selected(
                        old(self)@,
                        SelectorView::Type(spec_into_fqdn(service_type.spec_text()).unwrap()),
                    )
                    &&& !found ==> final(self)@ == old(self)@
                },
                Err(_) => final(self)@ == old(self)@ && spec_into_fqdn(service_type.spec_text())
                    is None,
            },
    {
        let ty = match service_type.into_fqdn() {
            Ok(name) => name,
            Err(err) => {
                return Err(err);
            },
        };
        let found = self.remove_selected(&Selector::Type(&ty));
        Ok(found)
    }

    /// Removes a service from the table, finding it by the type and name of
    /// an existing [`Service`].
    ///
    /// Returns `true` if the service was found and removed, and `false` if
    /// it was not found.
    pub fn remove_service(&mut self, service: &Service) -> (found: bool)
        requires
            old(self).wf(),
        ensures
            spec_removed(
                old(self)@,
                SelectorView::Named(service@.service_type, service@.service_name),
                final(self)@,
            ),
            found == spec_any_selected(
                old(self)@,
                SelectorView::Named(service@.service_type, service@.service_name),
            ),
            !found ==> final(self)@ == old(self)@,
    {
        self.remove_selected(&Selector::Named(service.service_type(), service.service_name()))
    }
}

} // verus!
