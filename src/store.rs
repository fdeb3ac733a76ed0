//! The three related tables and their operations: create, read, full-record
//! update and delete for each, plus the two queries that join them.
//!
//! Each table is kept in ascending order of identifier, so identifiers are
//! unique and a listing comes out ordered. A bed always names an existing
//! facility and a patient an existing bed: a write that would break that is
//! refused. An update or delete of an identifier that is not there changes
//! nothing and still succeeds.

use vstd::prelude::*;
use crate::keyed::{
    Keyed,
    ascending, copy_rows, find, has_key, insert_into, insert_row, keys, lemma_replace_row,
    locate, remove_from, remove_row, replace_in, replace_row, row_views, Row,
};
use crate::model::{
    covid_positive, occupied, BedView, FacilityView, Leito, LeitoData, Paciente, PacienteData,
    PatientView, UnidadeData, UnidadeSaude,
};

verus! {

/// Why a table operation failed.
#[derive(Clone, Copy, Debug, PartialEq, Eq, Structural)]
pub enum Fault {
    /// No row has the identifier asked for.
    NotFound,
    /// The facility or bed that a row points to does not exist.
    InvalidReference,
    /// A table constraint refused the write: the identifier is taken, or
    /// other rows still point to the row being deleted.
    Constraint,
}

/// The contents of the three tables.
pub struct Tables {
    pub unidades: Seq<FacilityView>,
    pub leitos: Seq<BedView>,
    pub pacientes: Seq<PatientView>,
}

impl Tables {
    /// Tables with no rows.
    pub open spec fn empty() -> Tables {
        Tables { unidades: Seq::empty(), leitos: Seq::empty(), pacientes: Seq::empty() }
    }

    /// Each table ascends by identifier; every bed names an existing facility
    /// and every patient an existing bed.
    pub open spec fn wf(self) -> bool {
        &&& ascending(keys(self.unidades))
        &&& ascending(keys(self.leitos))
        &&& ascending(keys(self.pacientes))
        &&& forall|i: int|
            0 <= i < self.leitos.len() ==> has_key(self.unidades, #[trigger] self.leitos[i].unidade_id)
        &&& forall|i: int|
            0 <= i < self.pacientes.len() ==> has_key(self.leitos, #[trigger] self.pacientes[i].leito_id)
    }

    /// Some bed belongs to facility `id`.
    pub open spec fn facility_in_use(self, id: u128) -> bool {
        exists|i: int| 0 <= i < self.leitos.len() && #[trigger] self.leitos[i].unidade_id == id
    }

    /// Some patient lies in bed `id`.
    pub open spec fn bed_in_use(self, id: u128) -> bool {
        exists|i: int| 0 <= i < self.pacientes.len() && #[trigger] self.pacientes[i].leito_id == id
    }

    /// The tables after registering facility `f`, if its identifier is free.
    pub open spec fn create_facility(self, f: FacilityView) -> Tables {
        Tables { unidades: insert_row(self.unidades, f), ..self }
    }

    /// What registering facility `f` answers.
    pub open spec fn create_facility_result(self, f: FacilityView) -> Result<u128, Fault> {
        if has_key(self.unidades, f.id) {
            Err(Fault::Constraint)
        } else {
            Ok(f.id)
        }
    }

    /// The tables after replacing facility `f.id` by `f`.
    pub open spec fn update_facility(self, f: FacilityView) -> Tables {
        Tables { unidades: replace_row(self.unidades, f), ..self }
    }

    /// The tables after deleting facility `id`, which no bed may still name.
    pub open spec fn delete_facility(self, id: u128) -> Tables {
        if self.facility_in_use(id) {
            self
        } else {
            Tables { unidades: remove_row(self.unidades, id), ..self }
        }
    }

    /// The tables after registering bed `b`, if its facility exists and its
    /// identifier is free.
    pub open spec fn create_bed(self, b: BedView) -> Tables {
        if has_key(self.unidades, b.unidade_id) {
            Tables { leitos: insert_row(self.leitos, b), ..self }
        } else {
            self
        }
    }

    /// What registering bed `b` answers.
    pub open spec fn create_bed_result(self, b: BedView) -> Result<u128, Fault> {
        if !has_key(self.unidades, b.unidade_id) {
            Err(Fault::InvalidReference)
        } else if has_key(self.leitos, b.id) {
            Err(Fault::Constraint)
        } else {
            Ok(b.id)
        }
    }

    /// The tables after replacing bed `b.id` by `b`, if its facility exists.
    pub open spec fn update_bed(self, b: BedView) -> Tables {
        if has_key(self.unidades, b.unidade_id) {
            Tables { leitos: replace_row(self.leitos, b), ..self }
        } else {
            self
        }
    }

    /// The tables after deleting bed `id`, in which no patient may still lie.
    pub open spec fn delete_bed(self, id: u128) -> Tables {
        if self.bed_in_use(id) {
            self
        } else {
            Tables { leitos: remove_row(self.leitos, id), ..self }
        }
    }

    /// The tables after registering patient `p`, if the bed exists and the
    /// identifier is free.
    pub open spec fn create_patient(self, p: PatientView) -> Tables {
        if has_key(self.leitos, p.leito_id) {
            Tables { pacientes: insert_row(self.pacientes, p), ..self }
        } else {
            self
        }
    }

    /// What registering patient `p` answers.
    pub open spec fn create_patient_result(self, p: PatientView) -> Result<u128, Fault> {
        if !has_key(self.leitos, p.leito_id) {
            Err(Fault::InvalidReference)
        } else if has_key(self.pacientes, p.id) {
            Err(Fault::Constraint)
        } else {
            Ok(p.id)
        }
    }

    /// The tables after replacing patient `p.id` by `p`, if the bed exists.
    pub open spec fn update_patient(self, p: PatientView) -> Tables {
        if has_key(self.leitos, p.leito_id) {
            Tables { pacientes: replace_row(self.pacientes, p), ..self }
        } else {
            self
        }
    }

    /// The tables after deleting patient `id`.
    pub open spec fn delete_patient(self, id: u128) -> Tables {
        Tables { pacientes: remove_row(self.pacientes, id), ..self }
    }

    /// Facility `fid` owns a bed whose status is not the occupied one.
    pub open spec fn has_free_bed(self, fid: u128) -> bool {
        exists|i: int|
            0 <= i < self.leitos.len() && #[trigger] self.leitos[i].unidade_id == fid
                && self.leitos[i].situacao != occupied()
    }

    /// The test that a facility owns a free bed.
    pub open spec fn free_bed_test(self) -> spec_fn(FacilityView) -> bool {
        |f: FacilityView| self.has_free_bed(f.id)
    }

    /// The facilities that own a free bed, in identifier order.
    pub open spec fn facilities_with_free_beds(self) -> Seq<FacilityView> {
        self.unidades.filter(self.free_bed_test())
    }

    /// Bed `bid` exists and belongs to facility `fid`.
    pub open spec fn bed_in_facility(self, bid: u128, fid: u128) -> bool {
        exists|i: int|
            0 <= i < self.leitos.len() && #[trigger] self.leitos[i].id == bid
                && self.leitos[i].unidade_id == fid
    }

    /// The test that a patient is COVID-positive and lies in facility `fid`.
    pub open spec fn covid_test(self, fid: u128) -> spec_fn(PatientView) -> bool {
        |p: PatientView| p.covid_19 == covid_positive() && self.bed_in_facility(p.leito_id, fid)
    }

    /// The COVID-positive patients whose bed belongs to facility `fid`, in
    /// identifier order.
    pub open spec fn covid_patients(self, fid: u128) -> Seq<PatientView> {
        self.pacientes.filter(self.covid_test(fid))
    }
}

/// The tables of one store.
pub struct Store {
    unidades: Vec<UnidadeSaude>,
    leitos: Vec<Leito>,
    pacientes: Vec<Paciente>,
}

impl View for Store {
    type V = Tables;

    closed spec fn view(&self) -> Tables {
        Tables {
            unidades: row_views(self.unidades@),
            leitos: row_views(self.leitos@),
            pacientes: row_views(self.pacientes@),
        }
    }
}

impl Store {
    pub open spec fn wf(&self) -> bool {
        self@.wf()
    }

    /// A store whose tables are empty.
    pub fn new() -> (s: Store)
        ensures
            s.wf(),
            s@ == Tables::empty(),
    {
        let s = Store { unidades: Vec::new(), leitos: Vec::new(), pacientes: Vec::new() };
        assert(s@.unidades =~= Seq::<FacilityView>::empty());
        assert(s@.leitos =~= Seq::<BedView>::empty());
        assert(s@.pacientes =~= Seq::<PatientView>::empty());
        s
    }

    /// Registers the facility of `data` under identifier `id`, which must not
    /// be taken.
    pub fn create_facility(&mut self, id: u128, data: UnidadeData) -> (r: Result<u128, Fault>)
        requires
            old(self).wf(),
        ensures
            final(self).wf(),
            final(self)@ == old(self)@.create_facility(data.with_id(id)),
            r == old(self)@.create_facility_result(data.with_id(id)),
            forall|k: u128|
                has_key(final(self)@.unidades, k) <==> (has_key(old(self)@.unidades, k) || (r is Ok && k == id)),
            final(self)@.unidades.len() == old(self)@.unidades.len() + (if r is Ok {
                1int
            } else {
                0int
            }),
    {
        let ghost before = self@;
        let row = data.into_row(id);
        if insert_into(&mut self.unidades, row) {
            assert(self@ == before.create_facility(data.with_id(id)));
            Ok(id)
        } else {
            assert(self@ == before.create_facility(data.with_id(id)));
            Err(Fault::Constraint)
        }
    }

    /// The facility with identifier `id`.
    pub fn facility(&self, id: u128) -> (r: Result<UnidadeSaude, Fault>)
        requires
            self.wf(),
        ensures
            match find(self@.unidades, id) {
                Some(f) => r matches Ok(u) && u@ == f,
                None => r == Err::<UnidadeSaude, Fault>(Fault::NotFound),
            },
    {
        match locate(&self.unidades, id) {
            Ok(i) => Ok(self.unidades[i].duplicate()),
            Err(_) => Err(Fault::NotFound),
        }
    }

    /// Every facility, in ascending order of identifier.
    pub fn facilities(&self) -> (r: Vec<UnidadeSaude>)
        ensures
            row_views(r@) == self@.unidades,
    {
        copy_rows(&self.unidades)
    }

    /// Replaces every field of the facility with identifier `f.id`; nothing
    /// changes where there is none.
    pub fn update_facility(&mut self, f: UnidadeSaude)
        requires
            old(self).wf(),
        ensures
            final(self).wf(),
            final(self)@ == old(self)@.update_facility(f@),
    {
        let ghost before = self@;
        let ghost fv = f@;
        replace_in(&mut self.unidades, f);
        assert(self@ == before.update_facility(fv));
    }

    /// Finds whether some bed belongs to facility `id`.
    fn facility_in_use(&self, id: u128) -> (r: bool)
        ensures
            r == self@.facility_in_use(id),
    {
        let mut i: usize = 0;
        while i < self.leitos.len()
            invariant
                0 <= i <= self.leitos.len(),
                forall|j: int| 0 <= j < i ==> #[trigger] self@.leitos[j].unidade_id != id,
            decreases self.leitos.len() - i,
        {
            assert(self@.leitos[i as int] == self.leitos@[i as int]@);
            if self.leitos[i].unidade_id == id {
                assert(self@.leitos[i as int].unidade_id == id);
                return true;
            }
            i = i + 1;
        }
        false
    }

    /// Deletes facility `id`. Refused while a bed still belongs to it; nothing
    /// changes where there is no such facility.
    pub fn delete_facility(&mut self, id: u128) -> (r: Result<(), Fault>)
        requires
            old(self).wf(),
        ensures
            final(self).wf(),
            final(self)@ == old(self)@.delete_facility(id),
            r == (if old(self)@.facility_in_use(id) {
                Err(Fault::Constraint)
            } else {
                Ok::<(), Fault>(())
            }),
    {
        if self.facility_in_use(id) {
            return Err(Fault::Constraint);
        }
        let ghost before = self@;
        remove_from(&mut self.unidades, id);
        assert forall|i: int| 0 <= i < self@.leitos.len() implies has_key(
            self@.unidades,
            #[trigger] self@.leitos[i].unidade_id,
        ) by {
            assert(before.leitos[i].unidade_id != id);
        }
        assert(self@ == before.delete_facility(id));
        Ok(())
    }

    /// Finds whether facility `fid` owns a bed that is not occupied.
    fn has_free_bed(&self, fid: u128, occ: &String) -> (r: bool)
        requires
            occ@ == occupied(),
        ensures
            r == self@.has_free_bed(fid),
    {
        let mut i: usize = 0;
        while i < self.leitos.len()
            invariant
                0 <= i <= self.leitos.len(),
                occ@ == occupied(),
                forall|j: int|
                    0 <= j < i ==> !(#[trigger] self@.leitos[j].unidade_id == fid
                        && self@.leitos[j].situacao != occupied()),
            decreases self.leitos.len() - i,
        {
            assert(self@.leitos[i as int] == self.leitos@[i as int]@);
            let b = &self.leitos[i];
            if b.unidade_id == fid && !(b.situacao == *occ) {
                assert(self@.leitos[i as int].unidade_id == fid);
                return true;
            }
            i = i + 1;
        }
        false
    }

    /// The facilities that own at least one bed that is not occupied, each
    /// once, in ascending order of identifier.
    pub fn facilities_with_free_beds(&self) -> (r: Vec<UnidadeSaude>)
        ensures
            row_views(r@) == self@.facilities_with_free_beds(),
    {
        let occ = String::from_str("Ocupado");
        let ghost test = self@.free_bed_test();
        let mut out: Vec<UnidadeSaude> = Vec::new();
        let mut i: usize = 0;
        while i < self.unidades.len()
            invariant
                0 <= i <= self.unidades.len(),
                occ@ == occupied(),
                test == self@.free_bed_test(),
                row_views(out@) == self@.unidades.take(i as int).filter(test),
            decreases self.unidades.len() - i,
        {
            let ghost fv = self@.unidades[i as int];
            assert(fv == self.unidades@[i as int]@);
            assert(self@.unidades.take(i as int + 1) =~= self@.unidades.take(i as int).push(fv));
            proof {
                self@.unidades.take(i as int).lemma_filter_push(fv, test);
            }
            if self.has_free_bed(self.unidades[i].id, &occ) {
                let row = self.unidades[i].duplicate();
                let ghost prev = out@;
                out.push(row);
                assert(row_views(out@) =~= row_views(prev).push(row@));
            }
            i = i + 1;
        }
        assert(self@.unidades.take(i as int) =~= self@.unidades);
        out
    }
    /// Finds whether facility `id` exists.
    fn facility_exists(&self, id: u128) -> (r: bool)
        requires
            self.wf(),
        ensures
            r == has_key(self@.unidades, id),
    {
        locate(&self.unidades, id).is_ok()
    }

    /// Finds whether bed `id` exists.
    fn bed_exists(&self, id: u128) -> (r: bool)
        requires
            self.wf(),
        ensures
            r == has_key(self@.leitos, id),
    {
        locate(&self.leitos, id).is_ok()
    }

    /// Registers the bed of `data` under identifier `id`. Refused where the
    /// facility it names does not exist, or else where `id` is taken.
    pub fn create_bed(&mut self, id: u128, data: LeitoData) -> (r: Result<u128, Fault>)
        requires
            old(self).wf(),
        ensures
            final(self).wf(),
            final(self)@ == old(self)@.create_bed(data.with_id(id)),
            r == old(self)@.create_bed_result(data.with_id(id)),
            forall|k: u128|
                has_key(final(self)@.leitos, k) <==> (has_key(old(self)@.leitos, k) || (r is Ok && k == id)),
            final(self)@.leitos.len() == old(self)@.leitos.len() + (if r is Ok {
                1int
            } else {
                0int
            }),
    {
        if !self.facility_exists(data.unidade_id) {
            return Err(Fault::InvalidReference);
        }
        let ghost before = self@;
        let row = data.into_row(id);
        let inserted = insert_into(&mut self.leitos, row);
        assert(self@ == before.create_bed(data.with_id(id)));
        proof {
            let nv = data.with_id(id);
            assert(has_key(before.unidades, nv.unidade_id));
            if inserted {
                crate::keyed::lemma_insert_row(before.leitos, nv);
                assert(self@.leitos == insert_row(before.leitos, nv));
                assert forall|i: int| 0 <= i < self@.leitos.len() implies has_key(
                    self@.unidades,
                    #[trigger] self@.leitos[i].unidade_id,
                ) by {
                    let x = self@.leitos[i];
                    assert(self@.leitos.contains(x));
                    if x != nv {
                        assert(before.leitos.contains(x));
                        let j = choose|j: int| 0 <= j < before.leitos.len() && before.leitos[j] == x;
                        assert(has_key(before.unidades, before.leitos[j].unidade_id));
                    }
                }
            }
        }
        if inserted {
            Ok(id)
        } else {
            Err(Fault::Constraint)
        }
    }

    /// The bed with identifier `id`.
    pub fn bed(&self, id: u128) -> (r: Result<Leito, Fault>)
        requires
            self.wf(),
        ensures
            match find(self@.leitos, id) {
                Some(b) => r matches Ok(l) && l@ == b,
                None => r == Err::<Leito, Fault>(Fault::NotFound),
            },
    {
        match locate(&self.leitos, id) {
            Ok(i) => Ok(self.leitos[i].duplicate()),
            Err(_) => Err(Fault::NotFound),
        }
    }

    /// Every bed, in ascending order of identifier.
    pub fn beds(&self) -> (r: Vec<Leito>)
        ensures
            row_views(r@) == self@.leitos,
    {
        copy_rows(&self.leitos)
    }

    /// Replaces every field of the bed with identifier `b.id`. Refused where
    /// that bed exists and the facility named does not; nothing changes where
    /// there is no such bed.
    pub fn update_bed(&mut self, b: Leito) -> (r: Result<(), Fault>)
        requires
            old(self).wf(),
        ensures
            final(self).wf(),
            final(self)@ == old(self)@.update_bed(b@),
            r == (if has_key(old(self)@.leitos, b.id) && !has_key(old(self)@.unidades, b.unidade_id) {
                Err(Fault::InvalidReference)
            } else {
                Ok::<(), Fault>(())
            }),
    {
        if !self.facility_exists(b.unidade_id) {
            if self.bed_exists(b.id) {
                return Err(Fault::InvalidReference);
            }
            return Ok(());
        }
        let ghost before = self@;
        let ghost bv = b@;
        replace_in(&mut self.leitos, b);
        proof {
            lemma_replace_row(before.leitos, bv);
        }
        assert(self@ == before.update_bed(bv));
        assert forall|i: int| 0 <= i < self@.leitos.len() implies has_key(
            self@.unidades,
            #[trigger] self@.leitos[i].unidade_id,
        ) by {
            if before.leitos[i].key() != bv.key() {
                assert(self@.leitos[i] == before.leitos[i]);
            } else {
                crate::keyed::lemma_index_unique(before.leitos, i);
            }
        }
        Ok(())
    }

    /// Finds whether some patient lies in bed `id`.
    fn bed_in_use(&self, id: u128) -> (r: bool)
        ensures
            r == self@.bed_in_use(id),
    {
        let mut i: usize = 0;
        while i < self.pacientes.len()
            invariant
                0 <= i <= self.pacientes.len(),
                forall|j: int| 0 <= j < i ==> #[trigger] self@.pacientes[j].leito_id != id,
            decreases self.pacientes.len() - i,
        {
            assert(self@.pacientes[i as int] == self.pacientes@[i as int]@);
            if self.pacientes[i].leito_id == id {
                assert(self@.pacientes[i as int].leito_id == id);
                return true;
            }
            i = i + 1;
        }
        false
    }

    /// Deletes bed `id`. Refused while a patient still lies in it; nothing
    /// changes where there is no such bed.
    pub fn delete_bed(&mut self, id: u128) -> (r: Result<(), Fault>)
        requires
            old(self).wf(),
        ensures
            final(self).wf(),
            final(self)@ == old(self)@.delete_bed(id),
            r == (if old(self)@.bed_in_use(id) {
                Err(Fault::Constraint)
            } else {
                Ok::<(), Fault>(())
            }),
    {
        if self.bed_in_use(id) {
            return Err(Fault::Constraint);
        }
        let ghost before = self@;
        remove_from(&mut self.leitos, id);
        proof {
            crate::keyed::lemma_remove_row(before.leitos, id);
        }
        assert forall|i: int| 0 <= i < self@.pacientes.len() implies has_key(
            self@.leitos,
            #[trigger] self@.pacientes[i].leito_id,
        ) by {
            assert(before.pacientes[i].leito_id != id);
        }
        assert forall|i: int| 0 <= i < self@.leitos.len() implies has_key(
            self@.unidades,
            #[trigger] self@.leitos[i].unidade_id,
        ) by {
            assert(self@.leitos.contains(self@.leitos[i]));
            let j = choose|j: int| 0 <= j < before.leitos.len() && before.leitos[j] == self@.leitos[i];
            assert(has_key(before.unidades, before.leitos[j].unidade_id));
        }
        assert(self@ == before.delete_bed(id));
        Ok(())
    }

    /// Registers the patient of `data` under identifier `id`. Refused where
    /// the bed it names does not exist, or else where `id` is taken.
    pub fn create_patient(&mut self, id: u128, data: PacienteData) -> (r: Result<u128, Fault>)
        requires
            old(self).wf(),
        ensures
            final(self).wf(),
            final(self)@ == old(self)@.create_patient(data.with_id(id)),
            r == old(self)@.create_patient_result(data.with_id(id)),
            forall|k: u128|
                has_key(final(self)@.pacientes, k) <==> (has_key(old(self)@.pacientes, k) || (r is Ok && k == id)),
            final(self)@.pacientes.len() == old(self)@.pacientes.len() + (if r is Ok {
                1int
            } else {
                0int
            }),
    {
        if !self.bed_exists(data.leito_id) {
            return Err(Fault::InvalidReference);
        }
        let ghost before = self@;
        let row = data.into_row(id);
        let inserted = insert_into(&mut self.pacientes, row);
        assert(self@ == before.create_patient(data.with_id(id)));
        proof {
            let nv = data.with_id(id);
            assert(has_key(before.leitos, nv.leito_id));
            if inserted {
                crate::keyed::lemma_insert_row(before.pacientes, nv);
                assert(self@.pacientes == insert_row(before.pacientes, nv));
                assert forall|i: int| 0 <= i < self@.pacientes.len() implies has_key(
                    self@.leitos,
                    #[trigger] self@.pacientes[i].leito_id,
                ) by {
                    let x = self@.pacientes[i];
                    assert(self@.pacientes.contains(x));
                    if x != nv {
                        assert(before.pacientes.contains(x));
                        let j = choose|j: int| 0 <= j < before.pacientes.len() && before.pacientes[j] == x;
                        assert(has_key(before.leitos, before.pacientes[j].leito_id));
                    }
                }
            }
        }
        if inserted {
            Ok(id)
        } else {
            Err(Fault::Constraint)
        }
    }

    /// The patient with identifier `id`.
    pub fn patient(&self, id: u128) -> (r: Result<Paciente, Fault>)
        requires
            self.wf(),
        ensures
            match find(self@.pacientes, id) {
                Some(p) => r matches Ok(q) && q@ == p,
                None => r == Err::<Paciente, Fault>(Fault::NotFound),
            },
    {
        match locate(&self.pacientes, id) {
            Ok(i) => Ok(self.pacientes[i].duplicate()),
            Err(_) => Err(Fault::NotFound),
        }
    }

    /// Every patient, in ascending order of identifier.
    pub fn patients(&self) -> (r: Vec<Paciente>)
        ensures
            row_views(r@) == self@.pacientes,
    {
        copy_rows(&self.pacientes)
    }

    /// Replaces every field of the patient with identifier `p.id`. Refused
    /// where that patient exists and the bed named does not; nothing changes
    /// where there is no such patient.
    pub fn update_patient(&mut self, p: Paciente) -> (r: Result<(), Fault>)
        requires
            old(self).wf(),
        ensures
            final(self).wf(),
            final(self)@ == old(self)@.update_patient(p@),
            r == (if has_key(old(self)@.pacientes, p.id) && !has_key(old(self)@.leitos, p.leito_id) {
                Err(Fault::InvalidReference)
            } else {
                Ok::<(), Fault>(())
            }),
    {
        if !self.bed_exists(p.leito_id) {
            if locate(&self.pacientes, p.id).is_ok() {
                return Err(Fault::InvalidReference);
            }
            return Ok(());
        }
        let ghost before = self@;
        let ghost pv = p@;
        replace_in(&mut self.pacientes, p);
        proof {
            lemma_replace_row(before.pacientes, pv);
        }
        assert(self@ == before.update_patient(pv));
        assert forall|i: int| 0 <= i < self@.pacientes.len() implies has_key(
            self@.leitos,
            #[trigger] self@.pacientes[i].leito_id,
        ) by {
            if before.pacientes[i].key() != pv.key() {
                assert(self@.pacientes[i] == before.pacientes[i]);
            } else {
                crate::keyed::lemma_index_unique(before.pacientes, i);
            }
        }
        Ok(())
    }

    /// Deletes patient `id`; nothing changes where there is no such patient.
    pub fn delete_patient(&mut self, id: u128)
        requires
            old(self).wf(),
        ensures
            final(self).wf(),
            final(self)@ == old(self)@.delete_patient(id),
    {
        let ghost before = self@;
        remove_from(&mut self.pacientes, id);
        proof {
            crate::keyed::lemma_remove_row(before.pacientes, id);
        }
        assert forall|i: int| 0 <= i < self@.pacientes.len() implies has_key(
            self@.leitos,
            #[trigger] self@.pacientes[i].leito_id,
        ) by {
            assert(self@.pacientes.contains(self@.pacientes[i]));
            let j = choose|j: int|
                0 <= j < before.pacientes.len() && before.pacientes[j] == self@.pacientes[i];
            assert(has_key(before.leitos, before.pacientes[j].leito_id));
        }
        assert(self@ == before.delete_patient(id));
    }

    /// Finds whether bed `bid` exists and belongs to facility `fid`.
    fn bed_in_facility(&self, bid: u128, fid: u128) -> (r: bool)
        ensures
            r == self@.bed_in_facility(bid, fid),
    {
        let mut i: usize = 0;
        while i < self.leitos.len()
            invariant
                0 <= i <= self.leitos.len(),
                forall|j: int|
                    0 <= j < i ==> !(#[trigger] self@.leitos[j].id == bid && self@.leitos[j].unidade_id
                        == fid),
            decreases self.leitos.len() - i,
        {
            assert(self@.leitos[i as int] == self.leitos@[i as int]@);
            if self.leitos[i].id == bid && self.leitos[i].unidade_id == fid {
                assert(self@.leitos[i as int].id == bid);
                return true;
            }
            i = i + 1;
        }
        false
    }

    /// The COVID-positive patients whose bed belongs to facility `fid`, in
    /// ascending order of identifier. Empty where there is no such facility.
    pub fn covid_positive_by_facility(&self, fid: u128) -> (r: Vec<Paciente>)
        ensures
            row_views(r@) == self@.covid_patients(fid),
    {
        let sim = String::from_str("Sim");
        let ghost test = self@.covid_test(fid);
        let mut out: Vec<Paciente> = Vec::new();
        let mut i: usize = 0;
        while i < self.pacientes.len()
            invariant
                0 <= i <= self.pacientes.len(),
                sim@ == covid_positive(),
                test == self@.covid_test(fid),
                row_views(out@) == self@.pacientes.take(i as int).filter(test),
            decreases self.pacientes.len() - i,
        {
            let ghost pv = self@.pacientes[i as int];
            assert(pv == self.pacientes@[i as int]@);
            assert(self@.pacientes.take(i as int + 1) =~= self@.pacientes.take(i as int).push(pv));
            proof {
                self@.pacientes.take(i as int).lemma_filter_push(pv, test);
            }
            let p = &self.pacientes[i];
            if p.covid_19 == sim && self.bed_in_facility(p.leito_id, fid) {
                let row = p.duplicate();
                let ghost prev = out@;
                out.push(row);
                assert(row_views(out@) =~= row_views(prev).push(row@));
            }
            i = i + 1;
        }
        assert(self@.pacientes.take(i as int) =~= self@.pacientes);
        out
    }
}

} // verus!
