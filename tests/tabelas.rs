use gerenciador_leitos::routes::{
    create_leito, create_paciente, create_unidade, delete_leito, delete_paciente, delete_unidade,
    get_all_leitos, get_all_pacientes, get_all_unidades, get_leito_by_id, get_paciente_by_id,
    get_pacientes_covid, get_unidade_by_id, get_unidades_com_leitos, parse_path_id, update_leito,
    update_paciente,
    update_unidade, Failure, Fault, Leito, LeitoData, Paciente, PacienteData, Store, UnidadeData,
    UnidadeSaude,
};

fn path_id(id: u128) -> String {
    uuid::Uuid::from_u128(id).to_string()
}

fn unidade(nome: &str, municipio: &str) -> UnidadeData {
    UnidadeData {
        email: format!("{}@saude.gov.br", nome.to_lowercase().replace(' ', "")),
        nome: String::from(nome),
        tipo: String::from("UBS"),
        municipio: String::from(municipio),
    }
}

fn leito(situacao: &str, unidade_id: u128) -> LeitoData {
    LeitoData { tipo: String::from("UTI"), situacao: String::from(situacao), unidade_id }
}

fn paciente(nome: &str, covid_19: &str, leito_id: u128) -> PacienteData {
    PacienteData {
        nome: String::from(nome),
        sexo: String::from("Feminino"),
        idade: String::from("33"),
        email: format!("{}@gmail.com", nome.to_lowercase()),
        telefone: String::from("84999990000"),
        covid_19: String::from(covid_19),
        leito_id,
    }
}

#[test]
fn facility_reads_back_as_registered() {
    let mut store = Store::new();
    let data = unidade("Hospital Central", "Mossoró");
    assert_eq!(store.create_facility(77, data.clone()), Ok(77));
    let saved = store.facility(77).unwrap();
    assert_eq!(
        saved,
        UnidadeSaude {
            id: 77,
            email: data.email,
            nome: data.nome,
            tipo: data.tipo,
            municipio: data.municipio,
        }
    );
}

#[test]
fn taken_identifier_is_refused() {
    let mut store = Store::new();
    assert_eq!(store.create_facility(5, unidade("A", "Natal")), Ok(5));
    assert_eq!(store.create_facility(5, unidade("B", "Natal")), Err(Fault::Constraint));
    assert_eq!(store.facility(5).unwrap().nome, "A");
    assert_eq!(store.create_bed(9, leito("Vazio", 5)), Ok(9));
    assert_eq!(store.create_bed(9, leito("Ocupado", 5)), Err(Fault::Constraint));
    assert_eq!(store.create_patient(3, paciente("Ana", "Sim", 9)), Ok(3));
    assert_eq!(store.create_patient(3, paciente("Bia", "Sim", 9)), Err(Fault::Constraint));
    assert_eq!(store.patients().len(), 1);
}

#[test]
fn bed_needs_an_existing_facility() {
    let mut store = Store::new();
    assert_eq!(create_leito(&mut store, leito("Vazio", 42)), Err(Failure::Store(Fault::InvalidReference)));
    assert!(get_all_leitos(&store).is_empty());
    let f = create_unidade(&mut store, unidade("UBS Norte", "Natal")).unwrap().id;
    let b = create_leito(&mut store, leito("Vazio", f)).unwrap().id;
    assert_eq!(store.bed(b).unwrap().unidade_id, f);
}

#[test]
fn patient_needs_an_existing_bed() {
    let mut store = Store::new();
    assert_eq!(
        create_paciente(&mut store, paciente("Ana", "Sim", 8)),
        Err(Failure::Store(Fault::InvalidReference))
    );
    assert_eq!(store.create_patient(1, paciente("Ana", "Sim", 8)), Err(Fault::InvalidReference));
    assert!(get_all_pacientes(&store).is_empty());
}

#[test]
fn empty_tables_list_nothing() {
    let store = Store::new();
    assert!(get_all_unidades(&store).is_empty());
    assert!(get_all_leitos(&store).is_empty());
    assert!(get_all_pacientes(&store).is_empty());
    assert!(get_unidades_com_leitos(&store).is_empty());
    assert_eq!(get_pacientes_covid(&store, &path_id(1)), Ok(vec![]));
}

#[test]
fn listings_ascend_by_identifier() {
    let mut store = Store::new();
    for id in [30u128, 10, u128::MAX, 0, 20] {
        assert_eq!(store.create_facility(id, unidade("U", "Natal")), Ok(id));
    }
    let ids: Vec<u128> = store.facilities().iter().map(|u| u.id).collect();
    assert_eq!(ids, vec![0, 10, 20, 30, u128::MAX]);
}

#[test]
fn facility_with_free_beds_is_listed_once() {
    let mut store = Store::new();
    store.create_facility(1, unidade("Duas Livres", "Natal")).unwrap();
    store.create_facility(2, unidade("So Ocupados", "Natal")).unwrap();
    store.create_facility(3, unidade("Sem Leitos", "Natal")).unwrap();
    store.create_facility(4, unidade("Uma Livre", "Natal")).unwrap();
    store.create_bed(10, leito("Vazio", 1)).unwrap();
    store.create_bed(11, leito("Limpeza", 1)).unwrap();
    store.create_bed(12, leito("Ocupado", 1)).unwrap();
    store.create_bed(13, leito("Ocupado", 2)).unwrap();
    store.create_bed(14, leito("Ocupado", 4)).unwrap();
    store.create_bed(15, leito("ocupado", 4)).unwrap();
    let ids: Vec<u128> = get_unidades_com_leitos(&store).iter().map(|u| u.id).collect();
    assert_eq!(ids, vec![1, 4]);
}

#[test]
fn freeing_a_bed_lists_its_facility() {
    let mut store = Store::new();
    store.create_facility(1, unidade("UBS", "Natal")).unwrap();
    store.create_bed(10, leito("Ocupado", 1)).unwrap();
    assert!(get_unidades_com_leitos(&store).is_empty());
    let freed = Leito { id: 10, tipo: String::from("UTI"), situacao: String::from("Vazio"), unidade_id: 1 };
    assert_eq!(update_leito(&mut store, freed), Ok(()));
    assert_eq!(get_unidades_com_leitos(&store).len(), 1);
}

#[test]
fn covid_listing_holds_positive_patients_of_the_facility() {
    let mut store = Store::new();
    store.create_facility(1, unidade("Norte", "Natal")).unwrap();
    store.create_facility(2, unidade("Sul", "Natal")).unwrap();
    store.create_bed(10, leito("Ocupado", 1)).unwrap();
    store.create_bed(11, leito("Ocupado", 1)).unwrap();
    store.create_bed(20, leito("Ocupado", 2)).unwrap();
    store.create_patient(100, paciente("Ana", "Sim", 10)).unwrap();
    store.create_patient(101, paciente("Bia", "Não", 11)).unwrap();
    store.create_patient(102, paciente("Caio", "Sim", 11)).unwrap();
    store.create_patient(103, paciente("Davi", "Sim", 20)).unwrap();
    store.create_patient(104, paciente("Eva", "sim", 10)).unwrap();
    let ids: Vec<u128> = get_pacientes_covid(&store, &path_id(1)).unwrap().iter().map(|p| p.id).collect();
    assert_eq!(ids, vec![100, 102]);
    let ids: Vec<u128> = store.covid_positive_by_facility(2).iter().map(|p| p.id).collect();
    assert_eq!(ids, vec![103]);
    assert!(store.covid_positive_by_facility(3).is_empty());
}

#[test]
fn covid_listing_follows_updates() {
    let mut store = Store::new();
    store.create_facility(1, unidade("Norte", "Natal")).unwrap();
    store.create_facility(2, unidade("Sul", "Natal")).unwrap();
    store.create_bed(10, leito("Ocupado", 1)).unwrap();
    store.create_patient(100, paciente("Ana", "Não", 10)).unwrap();
    assert!(store.covid_positive_by_facility(1).is_empty());

    let mut ana = store.patient(100).unwrap();
    ana.covid_19 = String::from("Sim");
    assert_eq!(update_paciente(&mut store, ana.clone()), Ok(()));
    assert_eq!(store.covid_positive_by_facility(1), vec![ana.clone()]);
    assert!(store.covid_positive_by_facility(2).is_empty());

    let moved = Leito { id: 10, tipo: String::from("UTI"), situacao: String::from("Ocupado"), unidade_id: 2 };
    assert_eq!(update_leito(&mut store, moved), Ok(()));
    assert!(store.covid_positive_by_facility(1).is_empty());
    assert_eq!(store.covid_positive_by_facility(2), vec![ana]);
}

#[test]
fn update_replaces_every_field() {
    let mut store = Store::new();
    store.create_facility(1, unidade("Velha", "Natal")).unwrap();
    store.create_facility(2, unidade("Outra", "Natal")).unwrap();
    store.create_bed(10, leito("Ocupado", 1)).unwrap();
    store.create_patient(100, paciente("Ana", "Não", 10)).unwrap();

    let nova = UnidadeSaude {
        id: 1,
        email: String::from("nova@saude.gov.br"),
        nome: String::from("Nova"),
        tipo: String::from("Hospital"),
        municipio: String::from("Caicó"),
    };
    update_unidade(&mut store, nova.clone());
    assert_eq!(store.facility(1), Ok(nova));

    let cama = Leito { id: 10, tipo: String::from("Enfermaria"), situacao: String::from("Vazio"), unidade_id: 2 };
    assert_eq!(store.update_bed(cama.clone()), Ok(()));
    assert_eq!(store.bed(10), Ok(cama));

    let bia = Paciente {
        id: 100,
        nome: String::from("Bia"),
        sexo: String::from("Feminino"),
        idade: String::from("70"),
        email: String::from("bia@gmail.com"),
        telefone: String::from("8433330000"),
        covid_19: String::from("Sim"),
        leito_id: 10,
    };
    assert_eq!(store.update_patient(bia.clone()), Ok(()));
    assert_eq!(store.patient(100), Ok(bia));
}

#[test]
fn update_of_a_missing_row_changes_nothing() {
    let mut store = Store::new();
    store.create_facility(1, unidade("Norte", "Natal")).unwrap();
    let before = store.facilities();
    let ghost_row = UnidadeSaude {
        id: 2,
        email: String::from("x@y.z"),
        nome: String::from("X"),
        tipo: String::from("UBS"),
        municipio: String::from("Natal"),
    };
    update_unidade(&mut store, ghost_row);
    assert_eq!(store.facilities(), before);
    let cama = Leito { id: 10, tipo: String::from("UTI"), situacao: String::from("Vazio"), unidade_id: 99 };
    assert_eq!(update_leito(&mut store, cama), Ok(()));
    assert!(store.beds().is_empty());
}

#[test]
fn update_to_a_missing_reference_is_refused() {
    let mut store = Store::new();
    store.create_facility(1, unidade("Norte", "Natal")).unwrap();
    store.create_bed(10, leito("Vazio", 1)).unwrap();
    store.create_patient(100, paciente("Ana", "Sim", 10)).unwrap();
    let cama = Leito { id: 10, tipo: String::from("UTI"), situacao: String::from("Vazio"), unidade_id: 99 };
    assert_eq!(update_leito(&mut store, cama), Err(Failure::Store(Fault::InvalidReference)));
    assert_eq!(store.bed(10).unwrap().unidade_id, 1);
    let mut ana = store.patient(100).unwrap();
    ana.leito_id = 55;
    assert_eq!(update_paciente(&mut store, ana), Err(Failure::Store(Fault::InvalidReference)));
    assert_eq!(store.patient(100).unwrap().leito_id, 10);
}

#[test]
fn delete_removes_exactly_one_row() {
    let mut store = Store::new();
    store.create_facility(1, unidade("Norte", "Natal")).unwrap();
    store.create_facility(2, unidade("Sul", "Natal")).unwrap();
    store.create_bed(10, leito("Vazio", 1)).unwrap();
    store.create_bed(11, leito("Vazio", 1)).unwrap();
    store.create_patient(100, paciente("Ana", "Sim", 10)).unwrap();
    store.create_patient(101, paciente("Bia", "Sim", 10)).unwrap();

    assert_eq!(delete_paciente(&mut store, &path_id(100)), Ok(()));
    assert_eq!(store.patient(100), Err(Fault::NotFound));
    assert_eq!(store.patients().len(), 1);

    assert_eq!(delete_leito(&mut store, &path_id(11)), Ok(()));
    assert_eq!(get_leito_by_id(&store, &path_id(11)), Err(Failure::Store(Fault::NotFound)));
    assert_eq!(store.beds().len(), 1);

    assert_eq!(delete_unidade(&mut store, &path_id(2)), Ok(()));
    assert_eq!(get_unidade_by_id(&store, &path_id(2)), Err(Failure::Store(Fault::NotFound)));
    let ids: Vec<u128> = store.facilities().iter().map(|u| u.id).collect();
    assert_eq!(ids, vec![1]);
}

#[test]
fn delete_of_a_missing_row_succeeds_and_changes_nothing() {
    let mut store = Store::new();
    store.create_facility(1, unidade("Norte", "Natal")).unwrap();
    assert_eq!(delete_unidade(&mut store, &path_id(9)), Ok(()));
    assert_eq!(delete_leito(&mut store, &path_id(9)), Ok(()));
    assert_eq!(delete_paciente(&mut store, &path_id(9)), Ok(()));
    assert_eq!(store.facilities().len(), 1);
}

#[test]
fn delete_of_a_referenced_row_is_refused() {
    let mut store = Store::new();
    store.create_facility(1, unidade("Norte", "Natal")).unwrap();
    store.create_bed(10, leito("Vazio", 1)).unwrap();
    store.create_patient(100, paciente("Ana", "Sim", 10)).unwrap();
    assert_eq!(store.delete_facility(1), Err(Fault::Constraint));
    assert_eq!(delete_leito(&mut store, &path_id(10)), Err(Failure::Store(Fault::Constraint)));
    assert_eq!(store.beds().len(), 1);
    store.delete_patient(100);
    assert_eq!(store.delete_bed(10), Ok(()));
    assert_eq!(store.delete_facility(1), Ok(()));
    assert!(store.facilities().is_empty());
}

#[test]
fn malformed_path_identifier_is_a_client_error() {
    let mut store = Store::new();
    store.create_facility(1, unidade("Norte", "Natal")).unwrap();
    let failure = get_unidade_by_id(&store, "not-an-id").unwrap_err();
    assert_eq!(failure, Failure::MalformedIdentifier);
    assert_eq!(failure.status(), 400);
    assert_eq!(get_leito_by_id(&store, ""), Err(Failure::MalformedIdentifier));
    assert_eq!(get_paciente_by_id(&store, "1234"), Err(Failure::MalformedIdentifier));
    assert_eq!(get_pacientes_covid(&store, "zz"), Err(Failure::MalformedIdentifier));
    assert_eq!(delete_unidade(&mut store, "00000000-0000-0000-0000-00000000000g"), Err(Failure::MalformedIdentifier));
    assert_eq!(delete_leito(&mut store, "x"), Err(Failure::MalformedIdentifier));
    assert_eq!(delete_paciente(&mut store, "x"), Err(Failure::MalformedIdentifier));
    assert_eq!(store.facilities().len(), 1);
}

#[test]
fn table_failures_are_server_errors() {
    assert_eq!(Failure::Store(Fault::NotFound).status(), 500);
    assert_eq!(Failure::Store(Fault::InvalidReference).status(), 500);
    assert_eq!(Failure::Store(Fault::Constraint).status(), 500);
}

#[test]
fn path_identifier_is_read_as_its_integer() {
    let mut store = Store::new();
    let id: u128 = 0x550e8400_e29b_41d4_a716_446655440000;
    store.create_facility(id, unidade("Leste", "Natal")).unwrap();
    assert_eq!(get_unidade_by_id(&store, "550e8400-e29b-41d4-a716-446655440000").unwrap().id, id);
    assert_eq!(get_unidade_by_id(&store, "550E8400-E29B-41D4-A716-446655440000").unwrap().id, id);
    assert_eq!(get_unidade_by_id(&store, "550e8400e29b41d4a716446655440000").unwrap().id, id);
    assert_eq!(
        get_unidade_by_id(&store, "550e8400-e29b-41d4-a716-446655440001"),
        Err(Failure::Store(Fault::NotFound))
    );
}

#[test]
fn fresh_identifiers_differ_and_read_back() {
    let mut store = Store::new();
    let a = create_unidade(&mut store, unidade("A", "Natal")).unwrap().id;
    let b = create_unidade(&mut store, unidade("B", "Natal")).unwrap().id;
    assert_ne!(a, b);
    assert_eq!(get_unidade_by_id(&store, &path_id(a)).unwrap().nome, "A");
    assert_eq!(get_unidade_by_id(&store, &path_id(b)).unwrap().nome, "B");
    assert_eq!((a >> 76) & 0xf, 4);
}

#[test]
fn facility_round_trip_scenario() {
    let mut store = Store::new();
    let data = UnidadeData {
        nome: String::from("UBS Teste"),
        email: String::from("ubsteste@gmail.com"),
        tipo: String::from("UBS"),
        municipio: String::from("Natal"),
    };
    let x = create_unidade(&mut store, data).unwrap().id;
    let got = get_unidade_by_id(&store, &path_id(x)).unwrap();
    assert_eq!(
        got,
        UnidadeSaude {
            id: x,
            nome: String::from("UBS Teste"),
            email: String::from("ubsteste@gmail.com"),
            tipo: String::from("UBS"),
            municipio: String::from("Natal"),
        }
    );
    assert_eq!(delete_unidade(&mut store, &path_id(x)), Ok(()));
    assert!(get_all_unidades(&store).is_empty());
}

#[test]
fn patient_reads_back_by_handler() {
    let mut store = Store::new();
    store.create_facility(1, unidade("Norte", "Natal")).unwrap();
    store.create_bed(10, leito("Ocupado", 1)).unwrap();
    let p = create_paciente(&mut store, paciente("Ana", "Sim", 10)).unwrap();
    let saved = get_paciente_by_id(&store, &path_id(p.id)).unwrap();
    assert_eq!(saved.nome, "Ana");
    assert_eq!(saved.leito_id, 10);
    assert_eq!(store.create_bed(10, leito("Vazio", 1)), Err(Fault::Constraint));
}

#[test]
fn path_segment_parses_to_identifier() {
    assert_eq!(
        parse_path_id("a1a2a3a4-b1b2-c1c2-d1d2-d3d4d5d6d7d8"),
        Ok(0xa1a2a3a4_b1b2_c1c2_d1d2_d3d4d5d6d7d8)
    );
    assert_eq!(parse_path_id("00000000-0000-0000-0000-000000000000"), Ok(0));
    assert_eq!(parse_path_id("ffffffff-ffff-ffff-ffff-ffffffffffff"), Ok(u128::MAX));
    assert_eq!(parse_path_id("a1a2a3a4-b1b2"), Err(Failure::MalformedIdentifier));
}
