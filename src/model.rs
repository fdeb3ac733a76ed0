//! The records of the three tables, the payloads that create them, and their
//! mathematical views.

use vstd::prelude::*;
use crate::keyed::{Keyed, Row};

verus! {

/// The status text that marks a bed as occupied; any other status is free.
pub open spec fn occupied() -> Seq<char> {
    "Ocupado"@
}

/// The COVID status text that marks a patient as positive.
pub open spec fn covid_positive() -> Seq<char> {
    "Sim"@
}

/// A health facility as a value.
pub struct FacilityView {
    pub id: u128,
    pub email: Seq<char>,
    pub nome: Seq<char>,
    pub tipo: Seq<char>,
    pub municipio: Seq<char>,
}

/// A bed as a value: `unidade_id` names the facility that owns it.
pub struct BedView {
    pub id: u128,
    pub tipo: Seq<char>,
    pub situacao: Seq<char>,
    pub unidade_id: u128,
}

/// A patient as a value: `leito_id` names the bed the patient lies in.
pub struct PatientView {
    pub id: u128,
    pub nome: Seq<char>,
    pub sexo: Seq<char>,
    pub idade: Seq<char>,
    pub email: Seq<char>,
    pub telefone: Seq<char>,
    pub covid_19: Seq<char>,
    pub leito_id: u128,
}

/// A row of the facility table.
#[derive(Clone, Debug, PartialEq, Eq)]
pub struct UnidadeSaude {
    pub id: u128,
    pub email: String,
    pub nome: String,
    pub tipo: String,
    pub municipio: String,
}

/// What a client sends to register a facility: every field but the identifier.
#[derive(Clone, Debug, PartialEq, Eq)]
pub struct UnidadeData {
    pub email: String,
    pub nome: String,
    pub tipo: String,
    pub municipio: String,
}

/// The identifier handed back when a facility is registered.
#[derive(Clone, Copy, Debug, PartialEq, Eq)]
pub struct UnidadeId {
    pub id: u128,
}

/// A row of the bed table.
#[derive(Clone, Debug, PartialEq, Eq)]
pub struct Leito {
    pub id: u128,
    pub tipo: String,
    pub situacao: String,
    pub unidade_id: u128,
}

/// What a client sends to register a bed.
#[derive(Clone, Debug, PartialEq, Eq)]
pub struct LeitoData {
    pub tipo: String,
    pub situacao: String,
    pub unidade_id: u128,
}

/// The identifier handed back when a bed is registered.
#[derive(Clone, Copy, Debug, PartialEq, Eq)]
pub struct LeitoId {
    pub id: u128,
}

/// A row of the patient table. Age and phone are free text.
#[derive(Clone, Debug, PartialEq, Eq)]
pub struct Paciente {
    pub id: u128,
    pub nome: String,
    pub sexo: String,
    pub idade: String,
    pub email: String,
    pub telefone: String,
    pub covid_19: String,
    pub leito_id: u128,
}

/// What a client sends to register a patient.
#[derive(Clone, Debug, PartialEq, Eq)]
pub struct PacienteData {
    pub nome: String,
    pub sexo: String,
    pub idade: String,
    pub email: String,
    pub telefone: String,
    pub covid_19: String,
    pub leito_id: u128,
}

/// The identifier handed back when a patient is registered.
#[derive(Clone, Copy, Debug, PartialEq, Eq)]
pub struct PacienteId {
    pub id: u128,
}

/// A patient's name on its own.
#[derive(Clone, Debug, PartialEq, Eq)]
pub struct PacienteNome {
    pub nome: String,
}

/// A count of rows.
#[derive(Clone, Copy, Debug, PartialEq, Eq)]
pub struct Quantidade {
    pub quantidade: i32,
}

impl View for UnidadeSaude {
    type V = FacilityView;

    open spec fn view(&self) -> FacilityView {
        FacilityView {
            id: self.id,
            email: self.email@,
            nome: self.nome@,
            tipo: self.tipo@,
            municipio: self.municipio@,
        }
    }
}

impl View for Leito {
    type V = BedView;

    open spec fn view(&self) -> BedView {
        BedView {
            id: self.id,
            tipo: self.tipo@,
            situacao: self.situacao@,
            unidade_id: self.unidade_id,
        }
    }
}

impl View for Paciente {
    type V = PatientView;

    open spec fn view(&self) -> PatientView {
        PatientView {
            id: self.id,
            nome: self.nome@,
            sexo: self.sexo@,
            idade: self.idade@,
            email: self.email@,
            telefone: self.telefone@,
            covid_19: self.covid_19@,
            leito_id: self.leito_id,
        }
    }
}

impl UnidadeData {
    /// The facility that this payload describes under identifier `id`.
    pub open spec fn with_id(&self, id: u128) -> FacilityView {
        FacilityView {
            id,
            email: self.email@,
            nome: self.nome@,
            tipo: self.tipo@,
            municipio: self.municipio@,
        }
    }

    /// The row for this payload under identifier `id`.
    pub fn into_row(self, id: u128) -> (r: UnidadeSaude)
        ensures
            r@ == self.with_id(id),
    {
        UnidadeSaude { id, email: self.email, nome: self.nome, tipo: self.tipo, municipio: self.municipio }
    }
}

impl LeitoData {
    /// The bed that this payload describes under identifier `id`.
    pub open spec fn with_id(&self, id: u128) -> BedView {
        BedView { id, tipo: self.tipo@, situacao: self.situacao@, unidade_id: self.unidade_id }
    }

    /// The row for this payload under identifier `id`.
    pub fn into_row(self, id: u128) -> (r: Leito)
        ensures
            r@ == self.with_id(id),
    {
        Leito { id, tipo: self.tipo, situacao: self.situacao, unidade_id: self.unidade_id }
    }
}

impl PacienteData {
    /// The patient that this payload describes under identifier `id`.
    pub open spec fn with_id(&self, id: u128) -> PatientView {
        PatientView {
            id,
            nome: self.nome@,
            sexo: self.sexo@,
            idade: self.idade@,
            email: self.email@,
            telefone: self.telefone@,
            covid_19: self.covid_19@,
            leito_id: self.leito_id,
        }
    }

    /// The row for this payload under identifier `id`.
    pub fn into_row(self, id: u128) -> (r: Paciente)
        ensures
            r@ == self.with_id(id),
    {
        Paciente {
            id,
            nome: self.nome,
            sexo: self.sexo,
            idade: self.idade,
            email: self.email,
            telefone: self.telefone,
            covid_19: self.covid_19,
            leito_id: self.leito_id,
        }
    }
}



impl Keyed for FacilityView {
    open spec fn key(&self) -> u128 {
        self.id
    }
}

impl Keyed for BedView {
    open spec fn key(&self) -> u128 {
        self.id
    }
}

impl Keyed for PatientView {
    open spec fn key(&self) -> u128 {
        self.id
    }
}

impl Row for UnidadeSaude {
    fn id_of(&self) -> (r: u128) {
        self.id
    }

    fn duplicate(&self) -> (r: UnidadeSaude) {
        UnidadeSaude {
            id: self.id,
            email: self.email.clone(),
            nome: self.nome.clone(),
            tipo: self.tipo.clone(),
            municipio: self.municipio.clone(),
        }
    }
}

impl Row for Leito {
    fn id_of(&self) -> (r: u128) {
        self.id
    }

    fn duplicate(&self) -> (r: Leito) {
        Leito {
            id: self.id,
            tipo: self.tipo.clone(),
            situacao: self.situacao.clone(),
            unidade_id: self.unidade_id,
        }
    }
}

impl Row for Paciente {
    fn id_of(&self) -> (r: u128) {
        self.id
    }

    fn duplicate(&self) -> (r: Paciente) {
        Paciente {
            id: self.id,
            nome: self.nome.clone(),
            sexo: self.sexo.clone(),
            idade: self.idade.clone(),
            email: self.email.clone(),
            telefone: self.telefone.clone(),
            covid_19: self.covid_19.clone(),
            leito_id: self.leito_id,
        }
    }
}

} // verus!
