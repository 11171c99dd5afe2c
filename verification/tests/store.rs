use banco_memoria::store::{Store, Tabela};

#[test]
fn inserir_e_buscar() {
    let store = Store::new();
    store.inserir("a", "1");
    assert_eq!(store.buscar("a"), Some("1".to_string()));
    assert_eq!(store.buscar("b"), None);
}

#[test]
fn clones_compartilham_dados() {
    let store = Store::new();
    let clone = store.clone();
    clone.inserir("x", "y");
    assert_eq!(store.buscar("x"), Some("y".to_string()));
}

#[test]
fn listar_por_prefixo_filtra_corretamente() {
    let store = Store::new();
    store.inserir("cpf_a", "111");
    store.inserir("cpf_b", "222");
    store.inserir("data_c", "333");
    let mut resultado = store.listar_por_prefixo("cpf_");
    resultado.sort();
    assert_eq!(
        resultado,
        vec![
            ("cpf_a".to_string(), "111".to_string()),
            ("cpf_b".to_string(), "222".to_string())
        ]
    );
}

#[test]
fn ultima_gravacao_vence() {
    let store = Store::new();
    store.inserir("k", "1");
    store.inserir("outra", "x");
    store.inserir("k", "2");
    assert_eq!(store.buscar("k"), Some("2".to_string()));
    assert_eq!(store.buscar("outra"), Some("x".to_string()));
    let mut todos = store.listar_por_prefixo("");
    todos.sort();
    assert_eq!(
        todos,
        vec![
            ("k".to_string(), "2".to_string()),
            ("outra".to_string(), "x".to_string())
        ]
    );
}

#[test]
fn banco_novo_vazio() {
    let store = Store::new();
    assert_eq!(store.buscar(""), None);
    assert_eq!(store.listar_por_prefixo(""), Vec::<(String, String)>::new());
}

#[test]
fn listagem_ve_a_gravacao_e_busca_exata() {
    let store = Store::new();
    store.inserir("cpfx", "9");
    store.inserir("cpf_z", "1");
    assert_eq!(
        store.listar_por_prefixo("cpf_"),
        vec![("cpf_z".to_string(), "1".to_string())]
    );
    assert_eq!(store.buscar("cpf"), None);
    assert_eq!(store.buscar("cpf_"), None);
}

#[test]
fn tabela_ler_apos_gravar() {
    let mut t: Tabela<u32> = Tabela::new();
    assert_eq!(t.buscar("a"), None);
    t.inserir("a".to_string(), 1);
    t.inserir("b".to_string(), 2);
    t.inserir("a".to_string(), 3);
    assert_eq!(t.buscar("a"), Some(&3));
    assert_eq!(t.buscar("b"), Some(&2));
    assert_eq!(t.buscar("c"), None);
}

#[test]
fn tabela_listagem_por_prefixo() {
    let mut t: Tabela<String> = Tabela::new();
    t.inserir("data_a".to_string(), "2000-01-23".to_string());
    t.inserir("dat".to_string(), "x".to_string());
    t.inserir("data_b".to_string(), "2024-02-29".to_string());
    let mut r = t.listar_por_prefixo("data");
    r.sort();
    assert_eq!(
        r,
        vec![
            ("data_a".to_string(), "2000-01-23".to_string()),
            ("data_b".to_string(), "2024-02-29".to_string())
        ]
    );
}
