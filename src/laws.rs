//! What holds of the tables across operations: a row reads back as it was
//! written, updates replace whole rows, deletes remove exactly one row, and
//! the two join queries list exactly the rows they describe.

use vstd::prelude::*;
use crate::keyed::{
    find, has_key, index_of, keys, lemma_filter_ascending, lemma_find_inserted,
    lemma_find_replaced, lemma_remove_row, Keyed,
};
use crate::model::{covid_positive, BedView, FacilityView, LeitoData, PacienteData, PatientView, UnidadeData};
use crate::store::{Fault, Tables};

verus! {

/// Registering a facility under a free identifier succeeds, and looking up
/// that identifier afterwards gives back every field of the payload.
pub proof fn law_facility_create_then_get(t: Tables, id: u128, data: UnidadeData)
    requires
        t.wf(),
        !has_key(t.unidades, id),
    ensures
        t.create_facility_result(data.with_id(id)) == Ok::<u128, Fault>(id),
        find(t.create_facility(data.with_id(id)).unidades, id) == Some(data.with_id(id)),
{
    lemma_find_inserted(t.unidades, data.with_id(id));
}

/// Registering a bed under a free identifier succeeds when the facility it
/// names exists, and the bed then reads back as registered; when that
/// facility does not exist it fails and the tables stay as they were.
pub proof fn law_bed_create_needs_facility(t: Tables, id: u128, data: LeitoData)
    requires
        t.wf(),
        !has_key(t.leitos, id),
    ensures
        has_key(t.unidades, data.unidade_id) ==> t.create_bed_result(data.with_id(id)) == Ok::<
            u128,
            Fault,
        >(id) && find(t.create_bed(data.with_id(id)).leitos, id) == Some(data.with_id(id)),
        !has_key(t.unidades, data.unidade_id) ==> t.create_bed_result(data.with_id(id)) == Err::<
            u128,
            Fault,
        >(Fault::InvalidReference) && t.create_bed(data.with_id(id)) == t,
{
    if has_key(t.unidades, data.unidade_id) {
        lemma_find_inserted(t.leitos, data.with_id(id));
    }
}

/// Registering a patient under a free identifier succeeds when the bed it
/// names exists, and the patient then reads back as registered; when that
/// bed does not exist it fails and the tables stay as they were.
pub proof fn law_patient_create_needs_bed(t: Tables, id: u128, data: PacienteData)
    requires
        t.wf(),
        !has_key(t.pacientes, id),
    ensures
        has_key(t.leitos, data.leito_id) ==> t.create_patient_result(data.with_id(id)) == Ok::<
            u128,
            Fault,
        >(id) && find(t.create_patient(data.with_id(id)).pacientes, id) == Some(data.with_id(id)),
        !has_key(t.leitos, data.leito_id) ==> t.create_patient_result(data.with_id(id)) == Err::<
            u128,
            Fault,
        >(Fault::InvalidReference) && t.create_patient(data.with_id(id)) == t,
{
    if has_key(t.leitos, data.leito_id) {
        lemma_find_inserted(t.pacientes, data.with_id(id));
    }
}

/// Empty tables are well formed, and every listing of them, the two join
/// queries included, is the empty sequence.
pub proof fn law_empty_tables_list_nothing(fid: u128)
    ensures
        Tables::empty().wf(),
        Tables::empty().unidades.len() == 0,
        Tables::empty().leitos.len() == 0,
        Tables::empty().pacientes.len() == 0,
        Tables::empty().facilities_with_free_beds().len() == 0,
        Tables::empty().covid_patients(fid).len() == 0,
{
    let t = Tables::empty();
    t.unidades.lemma_filter_len(t.free_bed_test());
    t.pacientes.lemma_filter_len(t.covid_test(fid));
}

/// A facility that owns a bed not marked occupied appears exactly once among
/// the facilities with free beds, however many such beds it has; one with no
/// beds, or with occupied beds only, does not appear.
pub proof fn law_free_bed_facilities_once(t: Tables, fid: u128)
    requires
        t.wf(),
    ensures
        t.has_free_bed(fid) ==> exists|i: int|
            0 <= i < t.facilities_with_free_beds().len()
                && #[trigger] t.facilities_with_free_beds()[i].id == fid && forall|j: int|
                0 <= j < t.facilities_with_free_beds().len()
                    && #[trigger] t.facilities_with_free_beds()[j].id == fid ==> j == i,
        !t.has_free_bed(fid) ==> forall|i: int|
            0 <= i < t.facilities_with_free_beds().len()
                ==> #[trigger] t.facilities_with_free_beds()[i].id != fid,
{
    let test = t.free_bed_test();
    let r = t.facilities_with_free_beds();
    lemma_filter_ascending(t.unidades, test);
    assert forall|i: int| 0 <= i < r.len() implies t.has_free_bed(#[trigger] r[i].id) by {
        t.unidades.lemma_filter_pred(test, i);
    }
    if t.has_free_bed(fid) {
        let b = choose|b: int|
            0 <= b < t.leitos.len() && #[trigger] t.leitos[b].unidade_id == fid && t.leitos[b].situacao
                != crate::model::occupied();
        assert(has_key(t.unidades, t.leitos[b].unidade_id));
        let k = choose|k: int| 0 <= k < t.unidades.len() && #[trigger] t.unidades[k].key() == fid;
        t.unidades.lemma_filter_contains(test, k);
        let i = choose|i: int| 0 <= i < r.len() && r[i] == t.unidades[k];
        assert(r[i].id == fid);
        assert forall|j: int| 0 <= j < r.len() && #[trigger] r[j].id == fid implies j == i by {
            if j < i {
                assert(keys(r)[j] < keys(r)[i]);
            } else if i < j {
                assert(keys(r)[i] < keys(r)[j]);
            }
        }
    }
}

/// The COVID listing of a facility holds exactly the patients who are
/// COVID-positive and lie in a bed of that facility.
pub proof fn law_covid_members(t: Tables, fid: u128, p: PatientView)
    ensures
        t.covid_patients(fid).contains(p) <==> (t.pacientes.contains(p) && p.covid_19
            == covid_positive() && t.bed_in_facility(p.leito_id, fid)),
{
    let test = t.covid_test(fid);
    let r = t.covid_patients(fid);
    if r.contains(p) {
        t.pacientes.lemma_filter_contains_rev(test, p);
        let i = choose|i: int| 0 <= i < r.len() && r[i] == p;
        t.pacientes.lemma_filter_pred(test, i);
    }
    if t.pacientes.contains(p) && p.covid_19 == covid_positive() && t.bed_in_facility(p.leito_id, fid) {
        let i = choose|i: int| 0 <= i < t.pacientes.len() && t.pacientes[i] == p;
        t.pacientes.lemma_filter_contains(test, i);
    }
}

/// After a patient's record is replaced, the next COVID listing of any
/// facility follows the new status and bed: the patient is listed exactly
/// when the new record is COVID-positive in a bed of that facility, and the
/// old record is gone from it.
pub proof fn law_covid_follows_patient_update(t: Tables, p: PatientView, fid: u128, q: PatientView)
    requires
        t.wf(),
        has_key(t.pacientes, p.id),
        has_key(t.leitos, p.leito_id),
    ensures
        t.update_patient(p).covid_patients(fid).contains(p) <==> (p.covid_19 == covid_positive()
            && t.bed_in_facility(p.leito_id, fid)),
        q.id == p.id && q != p ==> !t.update_patient(p).covid_patients(fid).contains(q),
{
    let u = t.update_patient(p);
    assert(u.leitos == t.leitos);
    assert(u.bed_in_facility(p.leito_id, fid) == t.bed_in_facility(p.leito_id, fid));
    lemma_find_replaced(t.pacientes, p);
    let j = index_of(t.pacientes, p.id);
    assert(u.pacientes[j] == p);
    assert(u.pacientes.contains(p));
    law_covid_members(u, fid, p);
    law_covid_members(u, fid, q);
    if q.id == p.id && q != p && u.pacientes.contains(q) {
        let i = choose|i: int| 0 <= i < u.pacientes.len() && u.pacientes[i] == q;
        assert(u.pacientes[i].key() == p.key());
    }
}

/// After a bed's record is replaced, the next COVID listing follows its new
/// facility: a patient in that bed is listed for a facility exactly when the
/// patient is COVID-positive and the bed now belongs to that facility.
pub proof fn law_covid_follows_bed_update(t: Tables, b: BedView, fid: u128, p: PatientView)
    requires
        t.wf(),
        has_key(t.leitos, b.id),
        has_key(t.unidades, b.unidade_id),
        t.pacientes.contains(p),
        p.leito_id == b.id,
    ensures
        t.update_bed(b).covid_patients(fid).contains(p) <==> (p.covid_19 == covid_positive()
            && b.unidade_id == fid),
{
    let u = t.update_bed(b);
    lemma_find_replaced(t.leitos, b);
    let j = index_of(t.leitos, b.id);
    assert(u.leitos[j] == b);
    law_covid_members(u, fid, p);
    if u.bed_in_facility(b.id, fid) {
        let i = choose|i: int|
            0 <= i < u.leitos.len() && #[trigger] u.leitos[i].id == b.id && u.leitos[i].unidade_id == fid;
        assert(u.leitos[i].key() == b.key());
    }
    if b.unidade_id == fid {
        assert(u.leitos[j].id == b.id);
    }
}

/// Updating a facility replaces all of its fields at once: looking it up
/// afterwards gives the new record.
pub proof fn law_facility_update_then_get(t: Tables, f: FacilityView)
    requires
        t.wf(),
        has_key(t.unidades, f.id),
    ensures
        find(t.update_facility(f).unidades, f.id) == Some(f),
{
    lemma_find_replaced(t.unidades, f);
}

/// Updating a bed that names an existing facility replaces all of its
/// fields at once: looking it up afterwards gives the new record.
pub proof fn law_bed_update_then_get(t: Tables, b: BedView)
    requires
        t.wf(),
        has_key(t.leitos, b.id),
        has_key(t.unidades, b.unidade_id),
    ensures
        find(t.update_bed(b).leitos, b.id) == Some(b),
{
    lemma_find_replaced(t.leitos, b);
}

/// Updating a patient who names an existing bed replaces all of the
/// patient's fields at once: looking the patient up afterwards gives the new
/// record.
pub proof fn law_patient_update_then_get(t: Tables, p: PatientView)
    requires
        t.wf(),
        has_key(t.pacientes, p.id),
        has_key(t.leitos, p.leito_id),
    ensures
        find(t.update_patient(p).pacientes, p.id) == Some(p),
{
    lemma_find_replaced(t.pacientes, p);
}

/// Deleting a facility that no bed names removes it: looking it up finds
/// nothing, no listed facility has its identifier, and there is one row
/// fewer.
pub proof fn law_facility_delete(t: Tables, id: u128)
    requires
        t.wf(),
        has_key(t.unidades, id),
        !t.facility_in_use(id),
    ensures
        find(t.delete_facility(id).unidades, id) is None,
        forall|i: int|
            0 <= i < t.delete_facility(id).unidades.len() ==> #[trigger] t.delete_facility(
                id,
            ).unidades[i].id != id,
        t.delete_facility(id).unidades.len() == t.unidades.len() - 1,
{
    let u = t.delete_facility(id);
    assert(u.unidades == crate::keyed::remove_row(t.unidades, id));
    lemma_remove_row(t.unidades, id);
    assert forall|i: int| 0 <= i < u.unidades.len() implies #[trigger] u.unidades[i].id != id by {
        if u.unidades[i].id == id {
            assert(u.unidades[i].key() == id);
        }
    }
}

/// Deleting a bed in which no patient lies removes it: looking it up finds
/// nothing, no listed bed has its identifier, and there is one row fewer.
pub proof fn law_bed_delete(t: Tables, id: u128)
    requires
        t.wf(),
        has_key(t.leitos, id),
        !t.bed_in_use(id),
    ensures
        find(t.delete_bed(id).leitos, id) is None,
        forall|i: int|
            0 <= i < t.delete_bed(id).leitos.len() ==> #[trigger] t.delete_bed(id).leitos[i].id != id,
        t.delete_bed(id).leitos.len() == t.leitos.len() - 1,
{
    let u = t.delete_bed(id);
    assert(u.leitos == crate::keyed::remove_row(t.leitos, id));
    lemma_remove_row(t.leitos, id);
    assert forall|i: int| 0 <= i < u.leitos.len() implies #[trigger] u.leitos[i].id != id by {
        if u.leitos[i].id == id {
            assert(u.leitos[i].key() == id);
        }
    }
}

/// Deleting a patient removes the patient: looking the patient up finds
/// nothing, no listed patient has that identifier, and there is one row
/// fewer.
pub proof fn law_patient_delete(t: Tables, id: u128)
    requires
        t.wf(),
        has_key(t.pacientes, id),
    ensures
        find(t.delete_patient(id).pacientes, id) is None,
        forall|i: int|
            0 <= i < t.delete_patient(id).pacientes.len() ==> #[trigger] t.delete_patient(
                id,
            ).pacientes[i].id != id,
        t.delete_patient(id).pacientes.len() == t.pacientes.len() - 1,
{
    let u = t.delete_patient(id);
    assert(u.pacientes == crate::keyed::remove_row(t.pacientes, id));
    lemma_remove_row(t.pacientes, id);
    assert forall|i: int| 0 <= i < u.pacientes.len() implies #[trigger] u.pacientes[i].id != id by {
        if u.pacientes[i].id == id {
            assert(u.pacientes[i].key() == id);
        }
    }
}

} // verus!
