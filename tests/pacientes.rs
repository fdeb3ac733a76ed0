use gerenciador_leitos::routes::{
    create_leito, create_paciente, create_unidade, delete_paciente, get_all_pacientes,
    get_paciente_by_id, update_paciente, LeitoData, Paciente, PacienteData, Store, UnidadeData,
};

fn path_id(id: u128) -> String {
    uuid::Uuid::from_u128(id).to_string()
}

fn uti_ocupado(store: &mut Store) -> u128 {
    let data = UnidadeData {
        nome: String::from("UBS Aux"),
        email: String::from("ubsaux@gmail.com"),
        tipo: String::from("UBS"),
        municipio: String::from("Natal"),
    };
    let hospital_id = create_unidade(store, data).unwrap().id;
    let leito = LeitoData {
        tipo: String::from("UTI"),
        situacao: String::from("Ocupado"),
        unidade_id: hospital_id,
    };
    create_leito(store, leito).unwrap().id
}

fn paciente(
    nome: &str,
    sexo: &str,
    idade: &str,
    email: &str,
    telefone: &str,
    covid_19: &str,
    leito_id: u128,
) -> PacienteData {
    PacienteData {
        nome: String::from(nome),
        sexo: String::from(sexo),
        idade: String::from(idade),
        email: String::from(email),
        telefone: String::from(telefone),
        covid_19: String::from(covid_19),
        leito_id,
    }
}

#[test]
fn create_paciente_returns_200() {
    let mut store = Store::new();
    let leito_id = uti_ocupado(&mut store);

    let response = create_paciente(
        &mut store,
        paciente("Fulano", "Masculino", "29", "fulano@gmail.com", "84998874321", "Sim", leito_id),
    );
    assert!(response.is_ok());

    let data = get_all_pacientes(&store);
    assert_eq!(data.len(), 1);
    assert_eq!(data[0].nome, "Fulano");
    assert_eq!(data[0].sexo, "Masculino");
    assert_eq!(data[0].idade, "29");
    assert_eq!(data[0].email, "fulano@gmail.com");
    assert_eq!(data[0].telefone, "84998874321");
    assert_eq!(data[0].covid_19, "Sim");
    assert_eq!(data[0].leito_id, leito_id);
}

#[test]
fn get_all_pacientes_returns_200() {
    let mut store = Store::new();
    let leito_id_1 = uti_ocupado(&mut store);
    let leito_id_2 = uti_ocupado(&mut store);

    let response_1 = create_paciente(
        &mut store,
        paciente("Fulano", "Masculino", "54", "fulano@gmail.com", "991223344", "Sim", leito_id_1),
    );
    assert!(response_1.is_ok());
    let response_2 = create_paciente(
        &mut store,
        paciente("Sicrano", "Masculino", "45", "sicrano@gmail.com", "991225566", "Não", leito_id_2),
    );
    assert!(response_2.is_ok());

    let pacientes = get_all_pacientes(&store);
    assert_eq!(2, pacientes.len());
}

#[test]
fn get_paciente_by_id_returns_200() {
    let mut store = Store::new();
    let leito_id = uti_ocupado(&mut store);
    let paciente_id = create_paciente(
        &mut store,
        paciente("Fulano", "Masculino", "54", "fulano@gmail.com", "991223344", "Sim", leito_id),
    )
    .unwrap();

    let saved = get_paciente_by_id(&store, &path_id(paciente_id.id)).unwrap();
    assert_eq!(saved.nome, String::from("Fulano"));
    assert_eq!(saved.sexo, String::from("Masculino"));
    assert_eq!(saved.idade, String::from("54"));
    assert_eq!(saved.email, String::from("fulano@gmail.com"));
    assert_eq!(saved.telefone, String::from("991223344"));
    assert_eq!(saved.covid_19, String::from("Sim"));
    assert_eq!(saved.leito_id, leito_id);
}

#[test]
fn update_paciente_returns_200() {
    let mut store = Store::new();
    let leito_id = uti_ocupado(&mut store);
    let paciente_id = create_paciente(
        &mut store,
        paciente("Fulano", "Masculino", "54", "fulano@gmail.com", "991223344", "Sim", leito_id),
    )
    .unwrap();

    let paciente = Paciente {
        id: paciente_id.id,
        nome: String::from("Sicrano"),
        sexo: String::from("Masculino"),
        idade: String::from("54"),
        email: String::from("sicrano@gmail.com"),
        telefone: String::from("991223344"),
        covid_19: String::from("Sim"),
        leito_id,
    };
    assert_eq!(update_paciente(&mut store, paciente.clone()), Ok(()));

    let saved = store.patient(paciente_id.id).unwrap();
    assert_eq!(saved.nome, paciente.nome);
    assert_eq!(saved.email, paciente.email);
}

#[test]
fn delete_paciente_returns_200() {
    let mut store = Store::new();
    let leito_id = uti_ocupado(&mut store);
    let paciente_id = create_paciente(
        &mut store,
        paciente("Fulano", "Masculino", "54", "fulano@gmail.com", "991223344", "Sim", leito_id),
    )
    .unwrap();

    assert_eq!(delete_paciente(&mut store, &path_id(paciente_id.id)), Ok(()));

    let count = get_all_pacientes(&store).len();
    assert_eq!(count, 0);
}
