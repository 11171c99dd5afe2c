use banco_memoria::lua_bridge::{
    decidir_retorno, eh_extensao_lua, escolher_registro, falha_com, falha_interna,
    globais_do_protocolo, limpar_mensagem_de_erro, nome_da_global, plano_de_carga,
    prefixo_da_chave, registrar, selecionar_extensoes, sucesso_com, Bridge, Operacao, Passo,
    RegistroExtensao, ResultadoExtensao,
};
use banco_memoria::motor::{aplicar_resultado, resposta_add, resposta_de_erro, resposta_get, Motor};
use banco_memoria::store::{Store, Tabela};

const EXTENSOES: &str = r#"
registrar_extensao("up", {
  add = function(chave, valor)
    if valor == "" then return { ok = false, erro = "vazio" } end
    local dono = nil
    for _, par in ipairs(listar("up_")) do
      if par.valor == string.upper(valor) and par.chave ~= chave then dono = par.chave end
    end
    if dono then return { ok = false, erro = "já existe em " .. dono } end
    return { ok = true, valor = string.upper(valor) }
  end,
  get = function(chave, valor) return { ok = true, valor = "<" .. valor .. ">" } end,
})
registrar_extensao("so", { add = function(c, v) return { ok = true } end })
registrar_extensao("boom", {
  add = function(c, v) error("explodiu", 0) end,
  get = function(c, v) return 42 end,
})
registrar_extensao("nega", { add = function(c, v) return { ok = false } end })
registrar_extensao("olha", {
  get = function(c, v) return { ok = true, valor = tostring(consultar("up_a")) } end,
})
"#;

fn texto(s: &str) -> String {
    s.to_string()
}

fn motor_de_teste() -> (Store, Motor) {
    let store = Store::new();
    let (bridge, avisos) =
        match Bridge::carregar(store.clone(), vec![(texto("ext/teste.lua"), Ok(texto(EXTENSOES)))]) {
            Ok(r) => r,
            Err(_) => panic!("a ponte não pôde ser criada"),
        };
    assert!(avisos.is_empty());
    (store.clone(), Motor::new(store, bridge))
}

fn responde(motor: &Motor, linha: &str) -> String {
    motor.processar(linha).expect("só EXIT encerra")
}

#[test]
fn prefixo_e_o_que_vem_antes_do_primeiro_sublinhado() {
    assert_eq!(prefixo_da_chave("cpf_zezinho"), "cpf");
    assert_eq!(prefixo_da_chave("data_nascimento_zezinho"), "data");
    assert_eq!(prefixo_da_chave("cpfx"), "cpfx");
    assert_eq!(prefixo_da_chave("_x"), "");
    assert_eq!(prefixo_da_chave(""), "");
}

#[test]
fn mensagem_de_erro_sem_prefixo_tecnico() {
    assert_eq!(limpar_mensagem_de_erro("runtime error: falhou"), "falhou");
    assert_eq!(limpar_mensagem_de_erro("syntax error: x"), "syntax error: x");
    assert_eq!(limpar_mensagem_de_erro("runtime error:"), "runtime error:");
}

#[test]
fn extensao_lua_como_em_path() {
    assert!(eh_extensao_lua("extensions/cpf.lua"));
    assert!(eh_extensao_lua("a.b.lua"));
    assert!(!eh_extensao_lua("extensions/.lua"));
    assert!(!eh_extensao_lua("extensions/lua"));
    assert!(!eh_extensao_lua("extensions/x.lua.bak"));
    assert!(!eh_extensao_lua("extensions/x.LUA"));
    assert!(eh_extensao_lua("dir.lua/x.lua"));
    assert!(!eh_extensao_lua("dir.lua/x"));
}

#[test]
fn extensoes_selecionadas_em_ordem_alfabetica() {
    let caminhos = vec![
        texto("ext/temperatura.lua"),
        texto("ext/leia-me.txt"),
        texto("ext/data.lua"),
        texto("ext/.lua"),
        texto("ext/cpf.lua"),
        texto("ext/Zeta.lua"),
    ];
    assert_eq!(
        selecionar_extensoes(caminhos),
        vec![
            texto("ext/Zeta.lua"),
            texto("ext/cpf.lua"),
            texto("ext/data.lua"),
            texto("ext/temperatura.lua")
        ]
    );
    assert_eq!(selecionar_extensoes(Vec::new()), Vec::<String>::new());
}

#[test]
fn retorno_da_extensao_em_sucesso_e_falha() {
    assert!(matches!(sucesso_com(Ok(Some(texto("v")))), ResultadoExtensao::Sucesso(Some(v)) if v == "v"));
    assert!(matches!(sucesso_com(Ok(None)), ResultadoExtensao::Sucesso(None)));
    assert!(matches!(
        sucesso_com(Err(mlua::Error::RuntimeError(texto("x")))),
        ResultadoExtensao::Sucesso(None)
    ));
    assert!(matches!(falha_com(Ok(texto("motivo"))), ResultadoExtensao::Falha(m) if m == "motivo"));
    assert!(matches!(
        falha_com(Err(mlua::Error::RuntimeError(texto("x")))),
        ResultadoExtensao::Falha(m) if m == "erro não especificado pela extensão"
    ));
}

#[test]
fn efeito_do_resultado_da_extensao() {
    assert_eq!(aplicar_resultado(ResultadoExtensao::SemExtensao, texto("o")), Ok(texto("o")));
    assert_eq!(aplicar_resultado(ResultadoExtensao::Sucesso(None), texto("o")), Ok(texto("o")));
    assert_eq!(
        aplicar_resultado(ResultadoExtensao::Sucesso(Some(texto("t"))), texto("o")),
        Ok(texto("t"))
    );
    assert_eq!(
        aplicar_resultado(ResultadoExtensao::Falha(texto("m")), texto("o")),
        Err(texto("m"))
    );
    assert_eq!(resposta_de_erro("chave inexistente"), "ERRO: chave inexistente");
}

#[test]
fn ponte_despacha_pelo_prefixo() {
    let store = Store::new();
    let (bridge, _) = match Bridge::carregar(store, vec![(texto("t.lua"), Ok(texto(EXTENSOES)))]) {
        Ok(r) => r,
        Err(_) => panic!("a ponte não pôde ser criada"),
    };
    assert!(matches!(bridge.tratar_add("up_a", "x"), ResultadoExtensao::Sucesso(Some(v)) if v == "X"));
    assert!(matches!(bridge.tratar_get("up_a", "X"), ResultadoExtensao::Sucesso(Some(v)) if v == "<X>"));
    assert!(matches!(bridge.tratar_add("so_a", "x"), ResultadoExtensao::Sucesso(None)));
    assert!(matches!(bridge.tratar_get("so_a", "x"), ResultadoExtensao::SemExtensao));
    assert!(matches!(bridge.tratar_add("upx", "x"), ResultadoExtensao::SemExtensao));
    assert!(matches!(bridge.tratar_add("nada", "x"), ResultadoExtensao::SemExtensao));
    assert!(matches!(bridge.tratar_add("up_a", ""), ResultadoExtensao::Falha(m) if m == "vazio"));
    assert!(matches!(
        bridge.tratar_add("nega_a", "x"),
        ResultadoExtensao::Falha(m) if m == "erro não especificado pela extensão"
    ));
    assert!(matches!(bridge.tratar_add("boom_a", "x"), ResultadoExtensao::Falha(m) if m.starts_with("explodiu")));
    assert!(matches!(bridge.tratar_get("boom_a", "x"), ResultadoExtensao::Falha(_)));
}

#[test]
fn motor_executa_o_roteiro() {
    let (store, motor) = motor_de_teste();
    assert_eq!(responde(&motor, "ADD up_a x"), "OK");
    assert_eq!(store.buscar("up_a"), Some(texto("X")));
    assert_eq!(responde(&motor, "GET up_a"), "<X>");
    assert_eq!(responde(&motor, "ADD up_b x"), "ERRO: já existe em up_a");
    assert_eq!(store.buscar("up_b"), None);
    assert_eq!(responde(&motor, "ADD up_a x"), "OK");
    assert_eq!(responde(&motor, "ADD so_k a b"), "OK");
    assert_eq!(responde(&motor, "GET so_k"), "a b");
    assert!(responde(&motor, "ADD boom_1 v").starts_with("ERRO: explodiu"));
    assert_eq!(responde(&motor, "GET boom_1"), "ERRO: chave inexistente");
    assert_eq!(responde(&motor, "ADD olha_1 v"), "OK");
    assert_eq!(responde(&motor, "GET olha_1"), "X");
    assert_eq!(responde(&motor, "GET nada"), "ERRO: chave inexistente");
    assert_eq!(responde(&motor, "FOO"), "ERRO: comando desconhecido: 'FOO'");
    assert_eq!(responde(&motor, ""), "ERRO: linha vazia");
    assert_eq!(motor.processar("EXIT"), None);
}

#[test]
fn arquivos_com_problema_viram_avisos() {
    let store = Store::new();
    let arquivos = vec![
        (texto("ext/a.lua"), Ok(texto("isto não é lua ("))),
        (texto("ext/b.lua"), Err(texto("sem permissão"))),
        (texto("ext/c.lua"), Ok(texto("registrar_extensao('c', {})"))),
    ];
    let (bridge, avisos) = match Bridge::carregar(store, arquivos) {
        Ok(r) => r,
        Err(_) => panic!("a ponte não pôde ser criada"),
    };
    assert_eq!(avisos.len(), 2);
    assert!(avisos[0].starts_with("Aviso: falha ao carregar extensão 'ext/a.lua': "));
    assert_eq!(
        avisos[1],
        "Aviso: falha ao carregar extensão 'ext/b.lua': runtime error: sem permissão"
    );
    assert!(matches!(bridge.tratar_add("c_1", "x"), ResultadoExtensao::SemExtensao));
}

#[test]
fn decisao_sobre_a_tabela_devolvida() {
    let erro = || mlua::Error::RuntimeError(texto("x"));
    assert!(matches!(
        decidir_retorno(Err(erro()), None, None),
        ResultadoExtensao::Falha(m) if m == "extensão retornou uma tabela sem o campo 'ok' (booleano)"
    ));
    assert!(matches!(
        decidir_retorno(Ok(true), Some(Ok(Some(texto("v")))), None),
        ResultadoExtensao::Sucesso(Some(v)) if v == "v"
    ));
    assert!(matches!(decidir_retorno(Ok(true), Some(Ok(None)), None), ResultadoExtensao::Sucesso(None)));
    assert!(matches!(decidir_retorno(Ok(true), Some(Err(erro())), None), ResultadoExtensao::Sucesso(None)));
    assert!(matches!(
        decidir_retorno(Ok(false), None, Some(Ok(texto("motivo")))),
        ResultadoExtensao::Falha(m) if m == "motivo"
    ));
    assert!(matches!(
        decidir_retorno(Ok(false), None, Some(Err(erro()))),
        ResultadoExtensao::Falha(m) if m == "erro não especificado pela extensão"
    ));
}

#[test]
fn falha_interna_com_o_texto_do_erro() {
    assert!(matches!(
        falha_interna("chave de outro estado"),
        ResultadoExtensao::Falha(m) if m == "erro interno ao recuperar a extensão: chave de outro estado"
    ));
}

#[test]
fn respostas_de_add_e_get() {
    assert_eq!(resposta_add(ResultadoExtensao::SemExtensao, texto("v")), (Some(texto("v")), texto("OK")));
    assert_eq!(
        resposta_add(ResultadoExtensao::Sucesso(Some(texto("V"))), texto("v")),
        (Some(texto("V")), texto("OK"))
    );
    assert_eq!(
        resposta_add(ResultadoExtensao::Falha(texto("ruim")), texto("v")),
        (None, texto("ERRO: ruim"))
    );
    assert_eq!(resposta_get(ResultadoExtensao::Sucesso(None), texto("v")), texto("v"));
    assert_eq!(resposta_get(ResultadoExtensao::Sucesso(Some(texto("<v>"))), texto("v")), texto("<v>"));
    assert_eq!(resposta_get(ResultadoExtensao::Falha(texto("m")), texto("v")), texto("ERRO: m"));
}

#[test]
fn plano_e_globais_da_carga() {
    let arquivos = vec![
        (texto("a.lua"), Ok(texto("x = 1"))),
        (texto("b.lua"), Err(texto("sem permissão"))),
    ];
    let plano = plano_de_carga(&arquivos);
    assert_eq!(plano.len(), 2);
    assert!(matches!(&plano[0], Passo::Executar { nome, codigo } if nome == "a.lua" && codigo == "x = 1"));
    assert!(matches!(&plano[1], Passo::Recusar { nome, motivo } if nome == "b.lua" && motivo == "sem permissão"));
    let nomes: Vec<&str> = globais_do_protocolo().iter().map(nome_da_global).collect();
    assert_eq!(nomes, vec!["registrar_extensao", "consultar", "listar"]);
}

#[test]
fn registro_substitui_pelo_prefixo() {
    let mut t: Tabela<RegistroExtensao> = Tabela::new();
    registrar(&mut t, texto("cpf"), None, None);
    assert!(t.buscar("cpf").is_some());
    assert!(escolher_registro(&t, "cpf_a", Operacao::Add).is_none());
    assert!(escolher_registro(&t, "cpfx", Operacao::Get).is_none());
    assert!(t.buscar("cpfx").is_none());
}
