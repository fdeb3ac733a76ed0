//! One handler per operation of the HTTP surface. Each takes the decoded
//! request, runs the matching table operation and says what to answer:
//! the value, or a failure that maps to a status code. A path identifier
//! that does not parse is a client error; any table failure is a server
//! error whose cause is kept for the server's own diagnostics.

use vstd::prelude::*;
use crate::ident::{fresh_identifier, hex_number, is_hyphenated, parse_identifier, uuid_from_text};
use crate::keyed::{find, has_key, row_views};
pub use crate::model::{
    Leito, LeitoData, LeitoId, Paciente, PacienteData, PacienteId, PacienteNome, Quantidade,
    UnidadeData, UnidadeId, UnidadeSaude,
};
pub use crate::store::{Fault, Store};

verus! {

/// Why a handler could not answer with a value.
#[derive(Clone, Copy, Debug, PartialEq, Eq, Structural)]
pub enum Failure {
    /// The identifier in the path is not an identifier.
    MalformedIdentifier,
    /// The table operation failed.
    Store(Fault),
}

impl Failure {
    /// The status code of the answer: 400 for a malformed identifier, 500
    /// for every table failure, whatever its cause.
    pub fn status(&self) -> (r: u16)
        ensures
            r == (if *self is MalformedIdentifier {
                400u16
            } else {
                500u16
            }),
    {
        match self {
            Failure::MalformedIdentifier => 400,
            Failure::Store(_) => 500,
        }
    }
}

/// The identifier that a path segment spells, or a client error.
pub fn parse_path_id(text: &str) -> (r: Result<u128, Failure>)
    ensures
        r == (match uuid_from_text(text@) {
            Some(k) => Ok::<u128, Failure>(k),
            None => Err(Failure::MalformedIdentifier),
        }),
        is_hyphenated(text@) ==> r == Ok::<u128, Failure>(hex_number(text@) as u128),
{
    match parse_identifier(text) {
        Some(k) => Ok(k),
        None => Err(Failure::MalformedIdentifier),
    }
}

/// Registers a facility under a fresh random identifier and answers with
/// that identifier. It can fail only where the identifier drawn is already
/// taken, so never on an empty table.
pub fn create_unidade(store: &mut Store, unidade_saude: UnidadeData) -> (r: Result<UnidadeId, Failure>)
    requires
        old(store).wf(),
    ensures
        final(store).wf(),
        match r {
            Ok(u) => !has_key(old(store)@.unidades, u.id) && final(store)@ == old(store)@.create_facility(
                unidade_saude.with_id(u.id),
            ) && find(final(store)@.unidades, u.id) == Some(unidade_saude.with_id(u.id))
                && has_key(final(store)@.unidades, u.id) && final(store)@.unidades.len()
                == old(store)@.unidades.len() + 1,
            Err(e) => e == Failure::Store(Fault::Constraint) && final(store)@ == old(store)@ && old(
                store,
            )@.unidades.len() > 0,
        },
{
    let id = fresh_identifier();
    proof {
        if !has_key(store@.unidades, id) {
            crate::laws::law_facility_create_then_get(store@, id, unidade_saude);
        }
    }
    match store.create_facility(id, unidade_saude) {
        Ok(id) => Ok(UnidadeId { id }),
        Err(f) => Err(Failure::Store(f)),
    }
}

/// Every facility, in ascending order of identifier.
pub fn get_all_unidades(store: &Store) -> (r: Vec<UnidadeSaude>)
    ensures
        row_views(r@) == store@.unidades,
{
    store.facilities()
}

/// The facility whose identifier the path text spells.
pub fn get_unidade_by_id(store: &Store, id: &str) -> (r: Result<UnidadeSaude, Failure>)
    requires
        store.wf(),
    ensures
        match uuid_from_text(id@) {
            None => r == Err::<UnidadeSaude, Failure>(Failure::MalformedIdentifier),
            Some(k) => match find(store@.unidades, k) {
                Some(f) => r matches Ok(u) && u@ == f,
                None => r == Err::<UnidadeSaude, Failure>(Failure::Store(Fault::NotFound)),
            },
        },
{
    match parse_path_id(id) {
        Err(f) => Err(f),
        Ok(k) => match store.facility(k) {
            Ok(u) => Ok(u),
            Err(f) => Err(Failure::Store(f)),
        },
    }
}

/// The facilities that own a bed that is not occupied, each once.
pub fn get_unidades_com_leitos(store: &Store) -> (r: Vec<UnidadeSaude>)
    ensures
        row_views(r@) == store@.facilities_with_free_beds(),
{
    store.facilities_with_free_beds()
}

/// Replaces every field of the facility that `unidade_saude` names; a
/// facility that does not exist is left alone, and the answer is the same.
pub fn update_unidade(store: &mut Store, unidade_saude: UnidadeSaude)
    requires
        old(store).wf(),
    ensures
        final(store).wf(),
        final(store)@ == old(store)@.update_facility(unidade_saude@),
{
    store.update_facility(unidade_saude)
}

/// Deletes the facility whose identifier the path text spells.
pub fn delete_unidade(store: &mut Store, id: &str) -> (r: Result<(), Failure>)
    requires
        old(store).wf(),
    ensures
        final(store).wf(),
        match uuid_from_text(id@) {
            None => r == Err::<(), Failure>(Failure::MalformedIdentifier) && final(store)@ == old(store)@,
            Some(k) => final(store)@ == old(store)@.delete_facility(k) && r == (if old(
                store,
            )@.facility_in_use(k) {
                Err(Failure::Store(Fault::Constraint))
            } else {
                Ok::<(), Failure>(())
            }),
        },
{
    match parse_path_id(id) {
        Err(f) => Err(f),
        Ok(k) => match store.delete_facility(k) {
            Ok(()) => Ok(()),
            Err(f) => Err(Failure::Store(f)),
        },
    }
}

/// Registers a bed under a fresh random identifier and answers with that
/// identifier. Refused where the facility it names does not exist; else it
/// can fail only where the identifier drawn is already taken, so never while
/// there are no beds.
pub fn create_leito(store: &mut Store, leito: LeitoData) -> (r: Result<LeitoId, Failure>)
    requires
        old(store).wf(),
    ensures
        final(store).wf(),
        !has_key(old(store)@.unidades, leito.unidade_id) ==> r == Err::<LeitoId, Failure>(
            Failure::Store(Fault::InvalidReference),
        ),
        match r {
            Ok(l) => has_key(old(store)@.unidades, leito.unidade_id) && !has_key(old(store)@.leitos, l.id)
                && final(store)@ == old(store)@.create_bed(leito.with_id(l.id)) && find(
                final(store)@.leitos,
                l.id,
            ) == Some(leito.with_id(l.id)) && has_key(
                final(store)@.leitos,
                l.id,
            ) && final(store)@.leitos.len() == old(store)@.leitos.len() + 1,
            Err(e) => final(store)@ == old(store)@ && (if has_key(old(store)@.unidades, leito.unidade_id) {
                e == Failure::Store(Fault::Constraint) && old(store)@.leitos.len() > 0
            } else {
                e == Failure::Store(Fault::InvalidReference)
            }),
        },
{
    let id = fresh_identifier();
    proof {
        if !has_key(store@.leitos, id) {
            crate::laws::law_bed_create_needs_facility(store@, id, leito);
        }
    }
    match store.create_bed(id, leito) {
        Ok(id) => Ok(LeitoId { id }),
        Err(f) => Err(Failure::Store(f)),
    }
}

/// Every bed, in ascending order of identifier.
pub fn get_all_leitos(store: &Store) -> (r: Vec<Leito>)
    ensures
        row_views(r@) == store@.leitos,
{
    store.beds()
}

/// The bed whose identifier the path text spells.
pub fn get_leito_by_id(store: &Store, id: &str) -> (r: Result<Leito, Failure>)
    requires
        store.wf(),
    ensures
        match uuid_from_text(id@) {
            None => r == Err::<Leito, Failure>(Failure::MalformedIdentifier),
            Some(k) => match find(store@.leitos, k) {
                Some(b) => r matches Ok(l) && l@ == b,
                None => r == Err::<Leito, Failure>(Failure::Store(Fault::NotFound)),
            },
        },
{
    match parse_path_id(id) {
        Err(f) => Err(f),
        Ok(k) => match store.bed(k) {
            Ok(l) => Ok(l),
            Err(f) => Err(Failure::Store(f)),
        },
    }
}

/// Replaces every field of the bed that `leito` names. Refused where that
/// bed exists and the facility named does not.
pub fn update_leito(store: &mut Store, leito: Leito) -> (r: Result<(), Failure>)
    requires
        old(store).wf(),
    ensures
        final(store).wf(),
        final(store)@ == old(store)@.update_bed(leito@),
        r == (if has_key(old(store)@.leitos, leito.id) && !has_key(old(store)@.unidades, leito.unidade_id) {
            Err(Failure::Store(Fault::InvalidReference))
        } else {
            Ok::<(), Failure>(())
        }),
{
    match store.update_bed(leito) {
        Ok(()) => Ok(()),
        Err(f) => Err(Failure::Store(f)),
    }
}

/// Deletes the bed whose identifier the path text spells.
pub fn delete_leito(store: &mut Store, id: &str) -> (r: Result<(), Failure>)
    requires
        old(store).wf(),
    ensures
        final(store).wf(),
        match uuid_from_text(id@) {
            None => r == Err::<(), Failure>(Failure::MalformedIdentifier) && final(store)@ == old(store)@,
            Some(k) => final(store)@ == old(store)@.delete_bed(k) && r == (if old(store)@.bed_in_use(k) {
                Err(Failure::Store(Fault::Constraint))
            } else {
                Ok::<(), Failure>(())
            }),
        },
{
    match parse_path_id(id) {
        Err(f) => Err(f),
        Ok(k) => match store.delete_bed(k) {
            Ok(()) => Ok(()),
            Err(f) => Err(Failure::Store(f)),
        },
    }
}

/// Registers a patient under a fresh random identifier and answers with
/// that identifier. Refused where the bed it names does not exist; else it
/// can fail only where the identifier drawn is already taken, so never while
/// there are no patients.
pub fn create_paciente(store: &mut Store, paciente: PacienteData) -> (r: Result<PacienteId, Failure>)
    requires
        old(store).wf(),
    ensures
        final(store).wf(),
        !has_key(old(store)@.leitos, paciente.leito_id) ==> r == Err::<PacienteId, Failure>(
            Failure::Store(Fault::InvalidReference),
        ),
        match r {
            Ok(p) => has_key(old(store)@.leitos, paciente.leito_id) && !has_key(old(store)@.pacientes, p.id)
                && final(store)@ == old(store)@.create_patient(paciente.with_id(p.id)) && find(
                final(store)@.pacientes,
                p.id,
            ) == Some(paciente.with_id(p.id)) && has_key(
                final(store)@.pacientes,
                p.id,
            ) && final(store)@.pacientes.len() == old(store)@.pacientes.len() + 1,
            Err(e) => final(store)@ == old(store)@ && (if has_key(old(store)@.leitos, paciente.leito_id) {
                e == Failure::Store(Fault::Constraint) && old(store)@.pacientes.len() > 0
            } else {
                e == Failure::Store(Fault::InvalidReference)
            }),
        },
{
    let id = fresh_identifier();
    proof {
        if !has_key(store@.pacientes, id) {
            crate::laws::law_patient_create_needs_bed(store@, id, paciente);
        }
    }
    match store.create_patient(id, paciente) {
        Ok(id) => Ok(PacienteId { id }),
        Err(f) => Err(Failure::Store(f)),
    }
}

/// Every patient, in ascending order of identifier.
pub fn get_all_pacientes(store: &Store) -> (r: Vec<Paciente>)
    ensures
        row_views(r@) == store@.pacientes,
{
    store.patients()
}

/// The patient whose identifier the path text spells.
pub fn get_paciente_by_id(store: &Store, id: &str) -> (r: Result<Paciente, Failure>)
    requires
        store.wf(),
    ensures
        match uuid_from_text(id@) {
            None => r == Err::<Paciente, Failure>(Failure::MalformedIdentifier),
            Some(k) => match find(store@.pacientes, k) {
                Some(p) => r matches Ok(q) && q@ == p,
                None => r == Err::<Paciente, Failure>(Failure::Store(Fault::NotFound)),
            },
        },
{
    match parse_path_id(id) {
        Err(f) => Err(f),
        Ok(k) => match store.patient(k) {
            Ok(p) => Ok(p),
            Err(f) => Err(Failure::Store(f)),
        },
    }
}

/// The COVID-positive patients lying in a bed of the facility whose
/// identifier the path text spells; empty for a facility that does not exist.
pub fn get_pacientes_covid(store: &Store, id: &str) -> (r: Result<Vec<Paciente>, Failure>)
    ensures
        match uuid_from_text(id@) {
            None => r == Err::<Vec<Paciente>, Failure>(Failure::MalformedIdentifier),
            Some(k) => r matches Ok(v) && row_views(v@) == store@.covid_patients(k),
        },
{
    match parse_path_id(id) {
        Err(f) => Err(f),
        Ok(k) => Ok(store.covid_positive_by_facility(k)),
    }
}

/// Replaces every field of the patient that `paciente` names. Refused
/// where that patient exists and the bed named does not.
pub fn update_paciente(store: &mut Store, paciente: Paciente) -> (r: Result<(), Failure>)
    requires
        old(store).wf(),
    ensures
        final(store).wf(),
        final(store)@ == old(store)@.update_patient(paciente@),
        r == (if has_key(old(store)@.pacientes, paciente.id) && !has_key(
            old(store)@.leitos,
            paciente.leito_id,
        ) {
            Err(Failure::Store(Fault::InvalidReference))
        } else {
            Ok::<(), Failure>(())
        }),
{
    match store.update_patient(paciente) {
        Ok(()) => Ok(()),
        Err(f) => Err(Failure::Store(f)),
    }
}

/// Deletes the patient whose identifier the path text spells.
pub fn delete_paciente(store: &mut Store, id: &str) -> (r: Result<(), Failure>)
    requires
        old(store).wf(),
    ensures
        final(store).wf(),
        match uuid_from_text(id@) {
            None => r == Err::<(), Failure>(Failure::MalformedIdentifier) && final(store)@ == old(store)@,
            Some(k) => r == Ok::<(), Failure>(()) && final(store)@ == old(store)@.delete_patient(k),
        },
{
    match parse_path_id(id) {
        Err(f) => Err(f),
        Ok(k) => {
            store.delete_patient(k);
            Ok(())
        },
    }
}

} // verus!
