use banco_memoria::comando::{interpretar, Comando, ErroSintaxe};

fn erro(msg: &str) -> Result<Comando, ErroSintaxe> {
    Err(ErroSintaxe(msg.to_string()))
}

#[test]
fn add_simples() {
    assert_eq!(
        interpretar("ADD cpf_zezinho 12345678909"),
        Ok(Comando::Add {
            chave: "cpf_zezinho".to_string(),
            valor: "12345678909".to_string()
        })
    );
}

#[test]
fn add_valor_com_espacos() {
    assert_eq!(
        interpretar("ADD nome Zezinho da Silva"),
        Ok(Comando::Add {
            chave: "nome".to_string(),
            valor: "Zezinho da Silva".to_string()
        })
    );
}

#[test]
fn get_simples() {
    assert_eq!(
        interpretar("GET cpf_zezinho"),
        Ok(Comando::Get {
            chave: "cpf_zezinho".to_string()
        })
    );
}

#[test]
fn exit_simples() {
    assert_eq!(interpretar("EXIT"), Ok(Comando::Exit));
}

#[test]
fn linha_vazia_e_erro() {
    assert!(interpretar("").is_err());
    assert!(interpretar("   ").is_err());
}

#[test]
fn comando_desconhecido_e_erro() {
    assert!(interpretar("DELETE x").is_err());
}

#[test]
fn add_incompleto_e_erro() {
    assert!(interpretar("ADD").is_err());
    assert!(interpretar("ADD chave").is_err());
}

#[test]
fn mensagens_de_cada_erro() {
    assert_eq!(interpretar(""), erro("linha vazia"));
    assert_eq!(interpretar(" \t\r\n"), erro("linha vazia"));
    assert_eq!(interpretar("EXIT agora"), erro("EXIT não recebe argumentos"));
    assert_eq!(interpretar("ADD"), erro("uso: ADD chave valor"));
    assert_eq!(interpretar("ADD "), erro("uso: ADD chave valor"));
    assert_eq!(interpretar("ADD chave"), erro("uso: ADD chave valor (valor ausente)"));
    assert_eq!(interpretar("ADD  valor"), erro("uso: ADD chave valor"));
    assert_eq!(interpretar("ADD chave "), erro("uso: ADD chave valor (valor ausente)"));
    assert_eq!(interpretar("GET"), erro("uso: GET chave"));
    assert_eq!(interpretar("GET   "), erro("uso: GET chave"));
    assert_eq!(interpretar("GET a b"), erro("uso: GET chave (apenas uma chave)"));
    assert_eq!(interpretar("DELETE x"), erro("comando desconhecido: 'DELETE'"));
    assert_eq!(interpretar("add x y"), erro("comando desconhecido: 'add'"));
    assert_eq!(interpretar("ADDX"), erro("comando desconhecido: 'ADDX'"));
}

#[test]
fn quebras_de_linha_finais_sao_ignoradas() {
    assert_eq!(interpretar("GET x\r\n"), interpretar("GET x"));
    assert_eq!(interpretar("EXIT\n\n"), Ok(Comando::Exit));
    assert_eq!(
        interpretar("ADD a b c\r\n"),
        Ok(Comando::Add {
            chave: "a".to_string(),
            valor: "b c".to_string()
        })
    );
}

#[test]
fn get_apara_espacos_unicode() {
    assert_eq!(
        interpretar("GET \u{00A0} chave\u{3000}"),
        Ok(Comando::Get {
            chave: "chave".to_string()
        })
    );
    assert_eq!(
        interpretar("GET chave\t"),
        Ok(Comando::Get {
            chave: "chave".to_string()
        })
    );
}

#[test]
fn exit_aceita_espacos_depois() {
    assert_eq!(interpretar("EXIT   "), Ok(Comando::Exit));
    assert_eq!(interpretar("EXIT"), Ok(Comando::Exit));
}

#[test]
fn add_guarda_espacos_do_valor_e_texto_nao_ascii() {
    assert_eq!(
        interpretar("ADD temp_x  36,5 °C "),
        Ok(Comando::Add {
            chave: "temp_x".to_string(),
            valor: " 36,5 °C ".to_string()
        })
    );
    assert_eq!(
        interpretar("ADD ção ñ"),
        Ok(Comando::Add {
            chave: "ção".to_string(),
            valor: "ñ".to_string()
        })
    );
}
