//! Ponte com o Lua: registra as extensões e despacha as chamadas de
//! `ADD`/`GET` para elas.
//!
//! **Este é o único módulo que importa `mlua`.** Nem o armazenamento nem a
//! leitura de entrada sabem que extensões existem — só este módulo.
//!
//! ## Protocolo de registro (resumo)
//!
//! Cada arquivo `.lua` de `extensions/` é executado uma vez, no boot. Para
//! se registrar, ele chama a função global `registrar_extensao(prefixo,
//! tabela)`, onde `tabela` tem os campos opcionais `add` e `get`, cada um
//! uma função Lua `function(chave, valor) -> tabela_resultado`.
//!
//! A extensão nunca recebe uma cópia do banco. Duas funções globais dão
//! acesso "ao vivo" aos dados, e nenhuma delas conhece prefixo algum:
//! - `consultar(chave)` -> valor (string) ou `nil`
//! - `listar(prefixo)` -> lista de `{chave = ..., valor = ...}`
//!
//! `tabela_resultado` é `{ ok = true, valor = "..." }` (valor é opcional —
//! omiti-lo mantém o valor original) ou `{ ok = false, erro = "motivo" }`.
//!
//! O que a VM do Lua faz não é verificado: as chamadas a `mlua` passam por
//! funções de confiança pequenas, e as decisões em volta delas (qual
//! extensão atende a chave, como o retorno vira `ResultadoExtensao`, como
//! uma mensagem de erro é limpa) são verificadas.

use std::rc::Rc;

use vstd::cell::invcell::InvCell;
use vstd::prelude::*;
use vstd::string::*;

use crate::store::{consulta, Store, Tabela, TabelaValida};
use crate::texto::{
    caracteres, lema_posicao_de_achada, lema_posicao_de_correta, lema_ordem_lexica_total, lema_ordem_lexica_transitiva, ordem_lexica, posicao,
    posicao_final, primeira, remover_prefixo, sem_prefixo, trecho_igual, ultima,
    vem_antes_ou_igual,
};

verus! {

#[verifier::external_type_specification]
#[verifier::external_body]
pub struct ExLua(mlua::Lua);

#[verifier::external_type_specification]
#[verifier::external_body]
pub struct ExFunction<'lua>(mlua::Function<'lua>);

#[verifier::external_type_specification]
#[verifier::external_body]
pub struct ExTable<'lua>(mlua::Table<'lua>);

#[verifier::external_type_specification]
#[verifier::external_body]
pub struct ExRegistryKey(mlua::RegistryKey);

#[verifier::external_type_specification]
#[verifier::external_body]
pub struct ExError(mlua::Error);

#[verifier::external_type_specification]
#[verifier::external_body]
pub struct ExChunk<'lua, 'a>(mlua::Chunk<'lua, 'a>);

/// Resultado de repassar um `ADD` ou `GET` para uma extensão.
pub enum ResultadoExtensao {
    /// Nenhuma extensão registrada trata o prefixo desta chave — o motor
    /// deve seguir com o comportamento padrão (gravar/ler o valor cru).
    SemExtensao,
    /// A extensão aceitou a operação. Se houver `Some(valor)`, é o valor
    /// transformado (por exemplo, o valor normalizado a gravar em um ADD,
    /// ou o valor formatado a exibir em um GET); em `None`, usa-se o valor
    /// original.
    Sucesso(Option<String>),
    /// A extensão rejeitou a operação, com o motivo em texto.
    Falha(String),
}

/// Qual das duas funções de uma extensão é chamada.
pub enum Operacao {
    Add,
    Get,
}

/// Uma extensão registrada: até duas funções Lua (uma por operação),
/// guardadas no registry do Lua.
pub struct RegistroExtensao {
    pub add: Option<mlua::RegistryKey>,
    pub get: Option<mlua::RegistryKey>,
}

impl RegistroExtensao {
    /// A chave do registry da função que trata a operação, se a extensão a definiu.
    pub open spec fn funcao_de(self, op: Operacao) -> Option<mlua::RegistryKey> {
        match op {
            Operacao::Add => self.add,
            Operacao::Get => self.get,
        }
    }
}

/// As extensões registradas, por prefixo, compartilhadas entre a ponte e a
/// função `registrar_extensao` que o Lua chama.
pub type Registros = Rc<InvCell<Tabela<RegistroExtensao>, TabelaValida>>;

/// A ponte em si. Mantém a VM do Lua viva e o registro de extensões.
pub struct Bridge {
    lua: mlua::Lua,
    registros: Registros,
}

/// O prefixo de uma chave é tudo que vem antes do primeiro `_` (a chave
/// inteira, se não houver `_`).
pub open spec fn prefixo_de(chave: Seq<char>) -> Seq<char> {
    match primeira(chave, '_') {
        Some(p) => chave.subrange(0, p),
        None => chave,
    }
}

/// O prefixo de uma chave é tudo que vem antes do primeiro `_`. Isso é uma
/// regra sintática genérica — nenhum nome de extensão específico aparece
/// aqui, só a convenção de separador.
pub fn prefixo_da_chave(chave: &str) -> (p: &str)
    ensures
        p@ == prefixo_de(chave@),
{
    let v = caracteres(chave);
    assert(v@.subrange(0, v@.len() as int) =~= v@);
    match posicao(&v, '_', v.len()) {
        Some(pos) => chave.substring_char(0, pos),
        None => chave,
    }
}

/// O prefixo é o começo da chave e não tem `_`; ou é a chave inteira, ou
/// vem seguido de `_` (por isso `cpfx` tem prefixo `cpfx`, não `cpf`).
pub proof fn lei_prefixo_da_chave(chave: Seq<char>)
    ensures
        prefixo_de(chave).is_prefix_of(chave),
        !prefixo_de(chave).contains('_'),
        prefixo_de(chave) == chave || chave[prefixo_de(chave).len() as int] == '_',
{
    lema_posicao_de_correta(chave, '_', 0);
    let p = prefixo_de(chave);
    assert(!p.contains('_')) by {
        if p.contains('_') {
            let k = choose|k: int| 0 <= k < p.len() && p[k] == '_';
            assert(chave[k] == '_');
        }
    }
}

/// A função que a extensão registrada sob o prefixo da chave (o texto antes
/// do primeiro `_`, ou a chave inteira) definiu para a operação, se houver.
pub open spec fn funcao_registrada(
    m: Map<Seq<char>, RegistroExtensao>,
    chave: Seq<char>,
    op: Operacao,
) -> Option<mlua::RegistryKey> {
    match consulta(m, prefixo_de(chave)) {
        Some(reg) => reg.funcao_de(op),
        None => None,
    }
}

/// Uma chave `p_resto`, com `p` sem `_`, é despachada à extensão de `p`,
/// qualquer que seja o resto (que pode ter outros `_`): `data_nascimento_x`
/// vai à extensão `data`, não a uma `data_nascimento`.
pub proof fn lei_despacho_pelo_primeiro_sublinhado(
    m: Map<Seq<char>, RegistroExtensao>,
    p: Seq<char>,
    resto: Seq<char>,
    op: Operacao,
)
    requires
        !p.contains('_'),
    ensures
        prefixo_de(p + seq!['_'] + resto) == p,
        funcao_registrada(m, p + seq!['_'] + resto, op) == match consulta(m, p) {
            Some(reg) => reg.funcao_de(op),
            None => None,
        },
{
    let chave = p + seq!['_'] + resto;
    assert forall|k: int| 0 <= k < p.len() implies chave[k] != '_' by {
        assert(chave[k] == p[k]);
        if p[k] == '_' {
            assert(p.contains('_'));
        }
    }
    assert(chave[p.len() as int] == '_');
    lema_posicao_de_achada(chave, '_', 0, p.len() as int);
    assert(chave.subrange(0, p.len() as int) =~= p);
}

/// Uma chave sem `_` só é despachada à extensão registrada exatamente com
/// ela como prefixo: `cpfx` não vai à extensão `cpf`.
pub proof fn lei_chave_sem_sublinhado(m: Map<Seq<char>, RegistroExtensao>, chave: Seq<char>, op: Operacao)
    requires
        !chave.contains('_'),
    ensures
        prefixo_de(chave) == chave,
        funcao_registrada(m, chave, op) == match consulta(m, chave) {
            Some(reg) => reg.funcao_de(op),
            None => None,
        },
{
    lema_posicao_de_correta(chave, '_', 0);
    if primeira(chave, '_') is Some {
        assert(chave.contains('_'));
    }
}

/// A função registrada para a operação pela extensão do prefixo da chave.
pub fn escolher_registro<'t>(
    registros: &'t Tabela<RegistroExtensao>,
    chave: &str,
    op: Operacao,
) -> (r: Option<&'t mlua::RegistryKey>)
    requires
        registros.bem_formada(),
    ensures
        match consulta(registros@, prefixo_de(chave@)) {
            Some(reg) => match r {
                Some(k) => reg.funcao_de(op) == Some(*k),
                None => reg.funcao_de(op) is None,
            },
            None => r is None,
        },
        match r {
            Some(k) => funcao_registrada(registros@, chave@, op) == Some(*k),
            None => funcao_registrada(registros@, chave@, op) is None,
        },
{
    let prefixo = prefixo_da_chave(chave);
    match registros.buscar(prefixo) {
        Some(reg) => match op {
            Operacao::Add => match &reg.add {
                Some(k) => Some(k),
                None => None,
            },
            Operacao::Get => match &reg.get {
                Some(k) => Some(k),
                None => None,
            },
        },
        None => None,
    }
}

pub open spec fn msg_erro_nao_especificado() -> Seq<char> {
    "erro não especificado pela extensão"@
}

pub open spec fn prefixo_erro_de_execucao() -> Seq<char> {
    "runtime error: "@
}

/// O resultado de uma extensão que respondeu `ok = true`, dado o que se leu
/// do campo `valor`: um `valor` ilegível conta como ausente.
pub fn sucesso_com(valor_lido: Result<Option<String>, mlua::Error>) -> (r: ResultadoExtensao)
    ensures
        r == ResultadoExtensao::Sucesso(
            match valor_lido {
                Ok(v) => v,
                Err(_) => None,
            },
        ),
{
    match valor_lido {
        Ok(v) => ResultadoExtensao::Sucesso(v),
        Err(_) => ResultadoExtensao::Sucesso(None),
    }
}

/// O resultado de uma extensão que respondeu `ok = false`, dado o que se
/// leu do campo `erro`: sem ele, a mensagem é genérica.
pub fn falha_com(erro_lido: Result<String, mlua::Error>) -> (r: ResultadoExtensao)
    ensures
        match erro_lido {
            Ok(e) => r == ResultadoExtensao::Falha(e),
            Err(_) => r matches ResultadoExtensao::Falha(m) && m@ == msg_erro_nao_especificado(),
        },
{
    match erro_lido {
        Ok(e) => ResultadoExtensao::Falha(e),
        Err(_) => ResultadoExtensao::Falha(String::from_str("erro não especificado pela extensão")),
    }
}

pub open spec fn msg_retorno_sem_ok() -> Seq<char> {
    "extensão retornou uma tabela sem o campo 'ok' (booleano)"@
}

/// O resultado de uma extensão, dado o que se leu dos campos da tabela que
/// ela devolveu: `ok` ilegível é uma falha com mensagem própria; `ok`
/// verdadeiro é sucesso com o `valor` lido (ilegível ou não lido conta como
/// ausente); `ok` falso é falha com o `erro` lido (ilegível ou não lido dá a
/// mensagem genérica).
pub fn decidir_retorno(
    ok_lido: Result<bool, mlua::Error>,
    valor_lido: Option<Result<Option<String>, mlua::Error>>,
    erro_lido: Option<Result<String, mlua::Error>>,
) -> (r: ResultadoExtensao)
    ensures
        match ok_lido {
            Err(_) => r matches ResultadoExtensao::Falha(m) && m@ == msg_retorno_sem_ok(),
            Ok(true) => r == ResultadoExtensao::Sucesso(
                match valor_lido {
                    Some(Ok(v)) => v,
                    _ => None,
                },
            ),
            Ok(false) => match erro_lido {
                Some(Ok(e)) => r == ResultadoExtensao::Falha(e),
                _ => r matches ResultadoExtensao::Falha(m) && m@ == msg_erro_nao_especificado(),
            },
        },
{
    match ok_lido {
        Err(_) => ResultadoExtensao::Falha(
            String::from_str("extensão retornou uma tabela sem o campo 'ok' (booleano)"),
        ),
        // `valor` é opcional: se a extensão não devolver nada (ou nil), o
        // motor mantém o valor original.
        Ok(true) => match valor_lido {
            Some(lido) => sucesso_com(lido),
            None => ResultadoExtensao::Sucesso(None),
        },
        Ok(false) => match erro_lido {
            Some(lido) => falha_com(lido),
            None => ResultadoExtensao::Falha(
                String::from_str("erro não especificado pela extensão"),
            ),
        },
    }
}

/// Lê a tabela `{ok=.., valor=.., erro=..}` devolvida por uma extensão:
/// `valor` só é lido quando `ok` é verdadeiro, e `erro` só quando é falso.
fn interpretar_retorno(tabela: mlua::Table) -> (r: ResultadoExtensao)
    ensures
        !(r is SemExtensao),
{
    let ok_lido = ler_booleano(&tabela, "ok");
    let valor_lido = match &ok_lido {
        Ok(true) => Some(ler_texto_opcional(&tabela, "valor")),
        _ => None,
    };
    let erro_lido = match &ok_lido {
        Ok(false) => Some(ler_texto(&tabela, "erro")),
        _ => None,
    };
    decidir_retorno(ok_lido, valor_lido, erro_lido)
}

/// A mensagem de um erro do Lua sem o prefixo técnico `runtime error: `,
/// quando presente, para a mensagem ficar mais limpa na tela do usuário.
pub fn limpar_mensagem_de_erro(texto: &str) -> (r: String)
    ensures
        r@ == sem_prefixo(texto@, prefixo_erro_de_execucao()),
{
    remover_prefixo(texto, "runtime error: ")
}

/// A mensagem de um erro do Lua, como a extensão o levantou.
fn formatar_erro_lua(erro: &mlua::Error) -> (r: String) {
    // mlua já inclui uma mensagem legível (inclusive de `error()` do Lua);
    // só o prefixo técnico sai.
    let texto = texto_do_erro(erro);
    limpar_mensagem_de_erro(texto.as_str())
}

pub open spec fn msg_erro_interno() -> Seq<char> {
    "erro interno ao recuperar a extensão: "@
}

/// A falha de quando a função registrada não pôde ser tirada do registry,
/// dado o texto do erro.
pub fn falha_interna(texto: &str) -> (r: ResultadoExtensao)
    ensures
        r matches ResultadoExtensao::Falha(m) && m@ == msg_erro_interno() + texto@,
{
    let mut m = String::from_str("erro interno ao recuperar a extensão: ");
    m.append(texto);
    ResultadoExtensao::Falha(m)
}

/// A função Lua escolhida, tirada do registry, se alguma foi escolhida.
fn obter_funcao<'lua>(lua: &'lua mlua::Lua, escolha: Option<&mlua::RegistryKey>) -> (r: Option<
    Result<mlua::Function<'lua>, mlua::Error>,
>)
    ensures
        (r is None) == (escolha is None),
{
    match escolha {
        Some(k) => Some(funcao_do_registry(lua, k)),
        None => None,
    }
}

/// A função Lua que a extensão do prefixo da chave registrou para a
/// operação, tirada do registry; nenhuma exatamente quando a tabela de
/// registros não tem função para a operação sob o prefixo da chave.
pub fn funcao_para<'lua>(
    lua: &'lua mlua::Lua,
    registros: &Tabela<RegistroExtensao>,
    chave: &str,
    op: Operacao,
) -> (r: Option<Result<mlua::Function<'lua>, mlua::Error>>)
    requires
        registros.bem_formada(),
    ensures
        (r is None) == (funcao_registrada(registros@, chave@, op) is None),
{
    obter_funcao(lua, escolher_registro(registros, chave, op))
}

/// Chama a função da extensão (se houver) com `(chave, valor)` e traduz o
/// desfecho: sem função, `SemExtensao`; função irrecuperável, falha interna;
/// erro do Lua, a mensagem limpa; tabela devolvida, o que ela diz.
fn despachar_com<'lua>(
    funcao: Option<Result<mlua::Function<'lua>, mlua::Error>>,
    chave: &str,
    valor: &str,
) -> (r: ResultadoExtensao)
    ensures
        (funcao is None) == (r is SemExtensao),
        funcao matches Some(Err(_)) ==> r matches ResultadoExtensao::Falha(m)
            && msg_erro_interno().is_prefix_of(m@),
{
    match funcao {
        None => ResultadoExtensao::SemExtensao,
        Some(Err(erro)) => {
            let texto = texto_do_erro(&erro);
            let r = falha_interna(texto.as_str());
            proof {
                let m = r->Falha_0;
                assert(m@.subrange(0, msg_erro_interno().len() as int) =~= msg_erro_interno());
            }
            r
        },
        Some(Ok(f)) => match chamar_extensao(&f, chave, valor) {
            Ok(tabela) => interpretar_retorno(tabela),
            Err(erro) => ResultadoExtensao::Falha(formatar_erro_lua(&erro)),
        },
    }
}

impl Bridge {
    /// Repassa um `ADD` para a extensão responsável pelo prefixo da chave,
    /// se houver uma.
    pub fn tratar_add(&self, chave: &str, valor: &str) -> (r: ResultadoExtensao) {
        self.despachar(chave, valor, Operacao::Add)
    }

    /// Repassa um `GET` para a extensão responsável pelo prefixo da chave,
    /// se houver uma.
    pub fn tratar_get(&self, chave: &str, valor: &str) -> (r: ResultadoExtensao) {
        self.despachar(chave, valor, Operacao::Get)
    }

    fn despachar(&self, chave: &str, valor: &str, op: Operacao) -> (r: ResultadoExtensao) {
        // A tabela de registros sai da célula só enquanto a função é
        // escolhida, e volta antes de a função Lua rodar: se a extensão
        // registrar outra extensão durante a chamada, nada se perde.
        let registros = self.registros.replace(Tabela::new());
        let funcao = funcao_para(&self.lua, &registros, chave, op);
        let _ = self.registros.replace(registros);
        despachar_com(funcao, chave, valor)
    }
}

/// O campo da tabela de operações onde a extensão põe cada função.
pub open spec fn campo_de(op: Operacao) -> Seq<char> {
    match op {
        Operacao::Add => "add"@,
        Operacao::Get => "get"@,
    }
}

/// `"add"` ou `"get"`.
pub fn nome_do_campo(op: &Operacao) -> (r: &'static str)
    ensures
        r@ == campo_de(*op),
{
    match op {
        Operacao::Add => "add",
        Operacao::Get => "get",
    }
}

/// Grava no registry a função que a tabela de operações traz no campo da
/// operação, se trouxer.
fn ler_operacao<'lua>(lua: &'lua mlua::Lua, operacoes: &mlua::Table<'lua>, op: Operacao) -> (r: Result<
    Option<mlua::RegistryKey>,
    mlua::Error,
>) {
    match ler_funcao_opcional(operacoes, nome_do_campo(&op)) {
        Ok(Some(f)) => match guardar_no_registry(lua, f) {
            Ok(k) => Ok(Some(k)),
            Err(e) => Err(e),
        },
        Ok(None) => Ok(None),
        Err(e) => Err(e),
    }
}

/// Registra a extensão do prefixo, substituindo uma anterior com o mesmo prefixo.
pub fn registrar(
    registros: &mut Tabela<RegistroExtensao>,
    prefixo: String,
    add: Option<mlua::RegistryKey>,
    get: Option<mlua::RegistryKey>,
)
    requires
        old(registros).bem_formada(),
    ensures
        final(registros).bem_formada(),
        final(registros)@ == old(registros)@.insert(prefixo@, RegistroExtensao { add, get }),
{
    registros.inserir(prefixo, RegistroExtensao { add, get });
}

/// Lê os campos `add` e `get` da tabela de operações e registra a extensão
/// sob o prefixo. É o corpo da função `registrar_extensao` exposta ao Lua.
fn registrar_para_lua<'lua>(
    lua: &'lua mlua::Lua,
    registros: &Registros,
    prefixo: String,
    operacoes: mlua::Table<'lua>,
) -> (r: Result<(), mlua::Error>) {
    let add = match ler_operacao(lua, &operacoes, Operacao::Add) {
        Ok(k) => k,
        Err(e) => return Err(e),
    };
    let get = match ler_operacao(lua, &operacoes, Operacao::Get) {
        Ok(k) => k,
        Err(e) => return Err(e),
    };
    let mut tabela = registros.replace(Tabela::new());
    registrar(&mut tabela, prefixo, add, get);
    let _ = registros.replace(tabela);
    Ok(())
}

/// Monta a lista `{ {chave=..., valor=...}, ... }` com os pares do banco
/// cuja chave começa com o prefixo. É o corpo da função `listar` exposta ao Lua.
fn listar_para_lua<'lua>(lua: &'lua mlua::Lua, store: &Store, prefixo: String) -> (r: Result<
    mlua::Table<'lua>,
    mlua::Error,
>) {
    let pares = store.listar_por_prefixo(prefixo.as_str());
    let lista = match nova_tabela_lua(lua) {
        Ok(t) => t,
        Err(e) => return Err(e),
    };
    let mut i: usize = 0;
    while i < pares.len()
        invariant
            i <= pares@.len(),
        decreases pares@.len() - i,
    {
        let par = match nova_tabela_lua(lua) {
            Ok(t) => t,
            Err(e) => return Err(e),
        };
        match definir_texto(&par, "chave", pares[i].0.clone()) {
            Ok(()) => {},
            Err(e) => return Err(e),
        }
        match definir_texto(&par, "valor", pares[i].1.clone()) {
            Ok(()) => {},
            Err(e) => return Err(e),
        }
        // Lua é 1-indexado.
        match definir_item(&lista, i + 1, par) {
            Ok(()) => {},
            Err(e) => return Err(e),
        }
        i = i + 1;
    }
    Ok(lista)
}

/// O nome do arquivo: o que vem depois da última `/` do caminho.
pub open spec fn nome_do_arquivo(caminho: Seq<char>) -> Seq<char> {
    match ultima(caminho, '/') {
        Some(p) => caminho.subrange(p + 1, caminho.len() as int),
        None => caminho,
    }
}

/// O caminho tem extensão `lua` no sentido de `Path::extension`: o nome do
/// arquivo tem um `.` que não é o primeiro caractere, e depois do último
/// `.` vem exatamente `lua`.
pub open spec fn tem_extensao_lua(caminho: Seq<char>) -> bool {
    let nome = nome_do_arquivo(caminho);
    match ultima(nome, '.') {
        Some(p) => p > 0 && nome.subrange(p + 1, nome.len() as int) == "lua"@,
        None => false,
    }
}

/// Os caminhos com extensão `lua`, na ordem em que aparecem.
pub open spec fn so_extensoes(caminhos: Seq<String>) -> Seq<String>
    decreases caminhos.len(),
{
    if caminhos.len() == 0 {
        Seq::empty()
    } else {
        let antes = so_extensoes(caminhos.drop_last());
        if tem_extensao_lua(caminhos.last()@) {
            antes.push(caminhos.last())
        } else {
            antes
        }
    }
}

/// Os caminhos estão em ordem alfabética (por ponto de código).
pub open spec fn em_ordem(s: Seq<String>) -> bool {
    forall|i: int, j: int| 0 <= i < j < s.len() ==> ordem_lexica(s[i]@, s[j]@)
}

/// `Path::new(caminho).extension() == Some("lua")`.
pub fn eh_extensao_lua(caminho: &str) -> (b: bool)
    ensures
        b == tem_extensao_lua(caminho@),
{
    let v = caracteres(caminho);
    let inicio = match posicao_final(&v, '/') {
        Some(p) => p + 1,
        None => 0,
    };
    let nome = caminho.substring_char(inicio, v.len());
    assert(nome@ == nome_do_arquivo(caminho@)) by {
        if inicio == 0 {
            assert(caminho@.subrange(0, caminho@.len() as int) =~= caminho@);
        }
    }
    let n = caracteres(nome);
    match posicao_final(&n, '.') {
        Some(p) => p > 0 && trecho_igual(&n, p + 1, n.len(), "lua"),
        None => false,
    }
}

/// Os arquivos de extensão a carregar, e em que ordem: só os `.lua`, em
/// ordem alfabética (determinística, facilita depuração e testes).
pub fn selecionar_extensoes(caminhos: Vec<String>) -> (r: Vec<String>)
    ensures
        em_ordem(r@),
        r@.to_multiset() == so_extensoes(caminhos@).to_multiset(),
{
    let mut escolhidos: Vec<String> = Vec::new();
    let mut i: usize = 0;
    while i < caminhos.len()
        invariant
            i <= caminhos@.len(),
            escolhidos@ == so_extensoes(caminhos@.take(i as int)),
        decreases caminhos@.len() - i,
    {
        assert(caminhos@.take(i + 1).drop_last() =~= caminhos@.take(i as int));
        assert(caminhos@.take(i + 1).last() == caminhos@[i as int]);
        if eh_extensao_lua(caminhos[i].as_str()) {
            escolhidos.push(caminhos[i].clone());
        }
        i = i + 1;
    }
    assert(caminhos@.take(caminhos@.len() as int) =~= caminhos@);
    let mut r: Vec<String> = Vec::new();
    assert(r@ =~= escolhidos@.take(0));
    let mut i: usize = 0;
    while i < escolhidos.len()
        invariant
            i <= escolhidos@.len(),
            em_ordem(r@),
            r@.to_multiset() == escolhidos@.take(i as int).to_multiset(),
        decreases escolhidos@.len() - i,
    {
        let x = escolhidos[i].clone();
        let xv = caracteres(x.as_str());
        let mut j: usize = 0;
        while j < r.len() && vem_antes_ou_igual(&caracteres(r[j].as_str()), &xv)
            invariant
                j <= r@.len(),
                xv@ == x@,
                forall|k: int| 0 <= k < j ==> ordem_lexica(#[trigger] r@[k]@, x@),
            decreases r@.len() - j,
        {
            j = j + 1;
        }
        let ghost antes = r@;
        proof {
            if j < antes.len() {
                lema_ordem_lexica_total(antes[j as int]@, x@);
                assert forall|k: int| j <= k < antes.len() implies ordem_lexica(
                    x@,
                    #[trigger] antes[k]@,
                ) by {
                    if k > j {
                        lema_ordem_lexica_transitiva(x@, antes[j as int]@, antes[k]@);
                    }
                }
            }
        }
        r.insert(j, x);
        proof {
            assert forall|a: int, b: int| 0 <= a < b < r@.len() implies ordem_lexica(
                r@[a]@,
                r@[b]@,
            ) by {
                if b < j {
                    assert(r@[a] == antes[a] && r@[b] == antes[b]);
                } else if b == j {
                    assert(r@[a] == antes[a]);
                } else if a < j {
                    assert(r@[a] == antes[a] && r@[b] == antes[b - 1]);
                    lema_ordem_lexica_transitiva(antes[a]@, x@, antes[b - 1]@);
                } else if a == j {
                    assert(r@[b] == antes[b - 1]);
                } else {
                    assert(r@[a] == antes[a - 1] && r@[b] == antes[b - 1]);
                }
            }
            assert(escolhidos@.take(i + 1) =~= escolhidos@.take(i as int).push(escolhidos@[i as int]));
            vstd::seq_lib::to_multiset_build(escolhidos@.take(i as int), escolhidos@[i as int]);
            vstd::seq_lib::to_multiset_insert(antes, j as int, x);
            assert(r@ == antes.insert(j as int, x));
        }
        i = i + 1;
    }
    assert(escolhidos@.take(escolhidos@.len() as int) =~= escolhidos@);
    r
}

/// O aviso de que o arquivo no caminho não pôde ser carregado.
pub open spec fn comeco_do_aviso(caminho: Seq<char>) -> Seq<char> {
    "Aviso: falha ao carregar extensão '"@ + caminho + "': "@
}

/// `Aviso: falha ao carregar extensão '<caminho>': <erro>`.
fn aviso_de_carga(caminho: &str, erro: &mlua::Error) -> (r: String)
    ensures
        comeco_do_aviso(caminho@).is_prefix_of(r@),
{
    let mut r = String::from_str("Aviso: falha ao carregar extensão '");
    r.append(caminho);
    r.append("': ");
    let ghost comeco = r@;
    let texto = texto_do_erro(erro);
    r.append(texto.as_str());
    assert(r@.subrange(0, comeco.len() as int) =~= comeco);
    r
}

/// Um passo da carga de um arquivo de extensão: executar o código lido,
/// com o caminho como nome, ou recusar o arquivo que não pôde ser lido.
pub enum Passo {
    Executar { nome: String, codigo: String },
    Recusar { nome: String, motivo: String },
}

/// O passo que cabe a um arquivo.
pub open spec fn passo_de(arquivo: (String, Result<String, String>)) -> Passo {
    match arquivo.1 {
        Ok(codigo) => Passo::Executar { nome: arquivo.0, codigo },
        Err(motivo) => Passo::Recusar { nome: arquivo.0, motivo },
    }
}

/// Os passos da carga, um por arquivo e na mesma ordem: o código de cada
/// arquivo lido, e o motivo de cada arquivo que não pôde ser lido.
pub fn plano_de_carga(arquivos: &Vec<(String, Result<String, String>)>) -> (r: Vec<Passo>)
    ensures
        r@.len() == arquivos@.len(),
        forall|i: int| 0 <= i < r@.len() ==> #[trigger] r@[i] == passo_de(arquivos@[i]),
{
    let mut r: Vec<Passo> = Vec::new();
    let mut i: usize = 0;
    while i < arquivos.len()
        invariant
            i <= arquivos@.len(),
            r@.len() == i,
            forall|j: int| 0 <= j < i ==> #[trigger] r@[j] == passo_de(arquivos@[j]),
        decreases arquivos@.len() - i,
    {
        let nome = arquivos[i].0.clone();
        let passo = match &arquivos[i].1 {
            Ok(codigo) => Passo::Executar { nome, codigo: codigo.clone() },
            Err(motivo) => Passo::Recusar { nome, motivo: motivo.clone() },
        };
        r.push(passo);
        i = i + 1;
    }
    r
}

/// Executa um passo da carga. Um arquivo recusado é um erro de execução com
/// o motivo da recusa.
fn carregar_arquivo(lua: &mlua::Lua, passo: &Passo) -> (r: Result<(), mlua::Error>)
    ensures
        passo is Recusar ==> r is Err,
{
    match passo {
        Passo::Executar { nome, codigo } => {
            let trecho = preparar_trecho(lua, codigo.as_str());
            executar_trecho(nomear_trecho(trecho, nome.as_str()))
        },
        Passo::Recusar { motivo, .. } => Err(erro_de_execucao(motivo.clone())),
    }
}

/// Os avisos vêm na ordem dos arquivos, no máximo um por arquivo, cada um
/// começando pelo caminho do seu arquivo (`idx[a]` é o arquivo do aviso
/// `a`), e todo arquivo que não pôde ser lido tem o seu aviso.
pub open spec fn avisos_em_ordem(
    arquivos: Seq<(String, Result<String, String>)>,
    avisos: Seq<String>,
    idx: Seq<int>,
) -> bool {
    &&& idx.len() == avisos.len()
    &&& forall|a: int|
        0 <= a < idx.len() ==> 0 <= #[trigger] idx[a] < arquivos.len() && comeco_do_aviso(
            arquivos[idx[a]].0@,
        ).is_prefix_of(avisos[a]@)
    &&& forall|a: int, b: int| 0 <= a < b < idx.len() ==> idx[a] < idx[b]
    &&& forall|k: int|
        0 <= k < arquivos.len() && (#[trigger] arquivos[k]).1 is Err ==> idx.contains(k)
}

/// As três funções globais do protocolo.
pub enum Global {
    RegistrarExtensao,
    Consultar,
    Listar,
}

/// O nome com que cada função global aparece no Lua.
pub open spec fn nome_global(g: Global) -> Seq<char> {
    match g {
        Global::RegistrarExtensao => "registrar_extensao"@,
        Global::Consultar => "consultar"@,
        Global::Listar => "listar"@,
    }
}

/// As globais, na ordem em que são expostas.
pub open spec fn globais_esperadas() -> Seq<Global> {
    seq![Global::RegistrarExtensao, Global::Consultar, Global::Listar]
}

/// `registrar_extensao`, `consultar` e `listar`, nessa ordem.
pub fn globais_do_protocolo() -> (v: Vec<Global>)
    ensures
        v@ == globais_esperadas(),
{
    let mut v: Vec<Global> = Vec::new();
    v.push(Global::RegistrarExtensao);
    v.push(Global::Consultar);
    v.push(Global::Listar);
    assert(v@ =~= globais_esperadas());
    v
}

/// O nome da global no Lua.
pub fn nome_da_global(g: &Global) -> (r: &'static str)
    ensures
        r@ == nome_global(*g),
{
    match g {
        Global::RegistrarExtensao => "registrar_extensao",
        Global::Consultar => "consultar",
        Global::Listar => "listar",
    }
}

pub open spec fn msg_falha_ao_criar(g: Global) -> Seq<char> {
    "falha ao criar a função "@ + nome_global(g)
}

pub open spec fn msg_falha_ao_definir(g: Global) -> Seq<char> {
    "falha ao expor "@ + nome_global(g)
}

/// As mensagens com que `expor_globais` pode falhar.
pub open spec fn falha_ao_expor(msg: Seq<char>) -> bool {
    exists|i: int|
        0 <= i < 3 && (msg == msg_falha_ao_criar(#[trigger] globais_esperadas()[i]) || msg
            == msg_falha_ao_definir(globais_esperadas()[i]))
}

/// `falha ao criar a função <nome>` ou `falha ao expor <nome>`.
fn mensagem_de_falha(g: &Global, ao_criar: bool) -> (r: String)
    ensures
        r@ == if ao_criar {
            msg_falha_ao_criar(*g)
        } else {
            msg_falha_ao_definir(*g)
        },
{
    let mut r = if ao_criar {
        String::from_str("falha ao criar a função ")
    } else {
        String::from_str("falha ao expor ")
    };
    r.append(nome_da_global(g));
    r
}

/// A função Lua de cada global.
fn criar_global<'lua>(lua: &'lua mlua::Lua, g: &Global, store: &Store, registros: &Registros) -> (r: Result<
    mlua::Function<'lua>,
    mlua::Error,
>) {
    match g {
        // registrar_extensao(prefixo, { add = fn, get = fn })
        Global::RegistrarExtensao => criar_funcao_registrar(lua, Rc::clone(registros)),
        // consultar(chave) -> valor ou nil
        Global::Consultar => criar_funcao_consultar(lua, store.clone()),
        // listar(prefixo) -> { {chave=..., valor=...}, ... }
        Global::Listar => criar_funcao_listar(lua, store.clone()),
    }
}

/// Expõe ao Lua as três funções globais do protocolo: `registrar_extensao`,
/// `consultar` e `listar`. Em caso de falha, diz qual passo falhou.
fn expor_globais(lua: &mlua::Lua, store: &Store, registros: &Registros) -> (r: Result<
    (),
    (String, mlua::Error),
>)
    ensures
        r matches Err((m, _)) ==> falha_ao_expor(m@),
{
    let globais = tabela_global(lua);
    let lista = globais_do_protocolo();
    let mut i: usize = 0;
    while i < lista.len()
        invariant
            i <= lista@.len(),
            lista@ == globais_esperadas(),
        decreases lista@.len() - i,
    {
        let g = &lista[i];
        let f = match criar_global(lua, g, store, registros) {
            Ok(f) => f,
            Err(e) => {
                let m = mensagem_de_falha(g, true);
                assert(m@ == msg_falha_ao_criar(globais_esperadas()[i as int]));
                return Err((m, e));
            },
        };
        if let Err(e) = definir_funcao(&globais, nome_da_global(g), f) {
            let m = mensagem_de_falha(g, false);
            assert(m@ == msg_falha_ao_definir(globais_esperadas()[i as int]));
            return Err((m, e));
        }
        i = i + 1;
    }
    Ok(())
}

impl Bridge {
    /// Cria a ponte, expõe as funções globais (`registrar_extensao`,
    /// `consultar`, `listar`) e depois executa, na ordem dada, o código de
    /// cada arquivo de extensão (ou registra o motivo de não ter sido
    /// possível lê-lo). Extensões com erro de carregamento viram avisos e são
    /// ignoradas — um `.lua` quebrado não derruba o programa. Só a falha ao
    /// expor as funções globais impede a ponte de existir.
    pub fn carregar(store: Store, arquivos: Vec<(String, Result<String, String>)>) -> (r: Result<
        (Bridge, Vec<String>),
        (String, mlua::Error),
    >)
        ensures
            match r {
                Ok((_, avisos)) => exists|idx: Seq<int>| #[trigger] avisos_em_ordem(arquivos@, avisos@, idx),
                Err((m, _)) => falha_ao_expor(m@),
            },
    {
        let lua = nova_vm();
        let registros: Registros = Rc::new(InvCell::new(Tabela::new(), Ghost(TabelaValida)));
        if let Err(e) = expor_globais(&lua, &store, &registros) {
            return Err(e);
        }
        let plano = plano_de_carga(&arquivos);
        let mut avisos: Vec<String> = Vec::new();
        let ghost mut idx: Seq<int> = Seq::empty();
        let mut i: usize = 0;
        while i < plano.len()
            invariant
                i <= plano@.len() == arquivos@.len(),
                forall|j: int| 0 <= j < plano@.len() ==> #[trigger] plano@[j] == passo_de(arquivos@[j]),
                idx.len() == avisos@.len(),
                forall|a: int|
                    0 <= a < idx.len() ==> 0 <= #[trigger] idx[a] < i && comeco_do_aviso(
                        arquivos@[idx[a]].0@,
                    ).is_prefix_of(avisos@[a]@),
                forall|a: int, b: int| 0 <= a < b < idx.len() ==> idx[a] < idx[b],
                forall|k: int| 0 <= k < i && (#[trigger] arquivos@[k]).1 is Err ==> idx.contains(k),
            decreases plano@.len() - i,
        {
            let passo = &plano[i];
            assert(passo == passo_de(arquivos@[i as int]));
            if let Err(erro) = carregar_arquivo(&lua, passo) {
                let nome = match passo {
                    Passo::Executar { nome, .. } => nome,
                    Passo::Recusar { nome, .. } => nome,
                };
                assert(nome@ == arquivos@[i as int].0@);
                let aviso = aviso_de_carga(nome.as_str(), &erro);
                let ghost antes = idx;
                avisos.push(aviso);
                proof {
                    idx = idx.push(i as int);
                    assert forall|k: int|
                        0 <= k < i + 1 && (#[trigger] arquivos@[k]).1 is Err implies idx.contains(
                        k,
                    ) by {
                        if k < i {
                            let a = choose|a: int| 0 <= a < antes.len() && antes[a] == k;
                            assert(idx[a] == k);
                        } else {
                            assert(idx[antes.len() as int] == k);
                        }
                    }
                }
            } else {
                assert(!(arquivos@[i as int].1 is Err));
            }
            i = i + 1;
        }
        assert(avisos_em_ordem(arquivos@, avisos@, idx));
        assert(exists|x: Seq<int>| #[trigger] avisos_em_ordem(arquivos@, avisos@, x));
        let ghost av = avisos@;
        let r = Ok((Bridge { lua, registros }, avisos));
        assert(r matches Ok((_, a2)) && a2@ == av);
        r
    }
}

// ---------------------------------------------------------------------------
// Chamadas a `mlua`. Nada do que a VM do Lua faz é verificado: estas funções
// só fazem a chamada, e o que devolvem depende do estado da VM.
// ---------------------------------------------------------------------------

/// `mlua::Lua::new`: cria uma VM com a parte segura da biblioteca padrão.
/// (A própria `mlua` entra em pânico se o estado do Lua não puder ser alocado.)
#[verifier::external_body]
fn nova_vm() -> (lua: mlua::Lua) {
    mlua::Lua::new()
}

/// `mlua::Lua::globals`: a tabela de globais da VM.
#[verifier::external_body]
fn tabela_global<'lua>(lua: &'lua mlua::Lua) -> (t: mlua::Table<'lua>) {
    lua.globals()
}

/// `mlua::Table::set` com uma função como valor: `t[nome] = f`.
#[verifier::external_body]
fn definir_funcao<'lua>(t: &mlua::Table<'lua>, nome: &str, f: mlua::Function<'lua>) -> (r: Result<
    (),
    mlua::Error,
>) {
    t.set(nome, f)
}

/// `mlua::Table::set` com um texto como valor: `t[campo] = v`.
#[verifier::external_body]
fn definir_texto<'lua>(t: &mlua::Table<'lua>, campo: &str, v: String) -> (r: Result<
    (),
    mlua::Error,
>) {
    t.set(campo, v)
}

/// `mlua::Table::set` com índice inteiro e tabela como valor: `t[i] = v`.
#[verifier::external_body]
fn definir_item<'lua>(t: &mlua::Table<'lua>, i: usize, v: mlua::Table<'lua>) -> (r: Result<
    (),
    mlua::Error,
>) {
    t.set(i, v)
}

/// `mlua::Table::get` convertido em `bool` (pela regra do Lua: `nil` e
/// `false` são falsos, o resto é verdadeiro).
#[verifier::external_body]
fn ler_booleano<'lua>(t: &mlua::Table<'lua>, campo: &str) -> (r: Result<bool, mlua::Error>) {
    t.get(campo)
}

/// `mlua::Table::get` convertido em texto opcional (`nil` vira `None`).
#[verifier::external_body]
fn ler_texto_opcional<'lua>(t: &mlua::Table<'lua>, campo: &str) -> (r: Result<
    Option<String>,
    mlua::Error,
>) {
    t.get::<_, Option<String>>(campo)
}

/// `mlua::Table::get` convertido em texto.
#[verifier::external_body]
fn ler_texto<'lua>(t: &mlua::Table<'lua>, campo: &str) -> (r: Result<String, mlua::Error>) {
    t.get(campo)
}

/// `mlua::Table::get` convertido em função opcional (`nil` vira `None`).
#[verifier::external_body]
fn ler_funcao_opcional<'lua>(t: &mlua::Table<'lua>, campo: &str) -> (r: Result<
    Option<mlua::Function<'lua>>,
    mlua::Error,
>) {
    t.get::<_, Option<mlua::Function>>(campo)
}

/// `mlua::Lua::create_table`: uma tabela Lua nova e vazia.
#[verifier::external_body]
fn nova_tabela_lua<'lua>(lua: &'lua mlua::Lua) -> (r: Result<mlua::Table<'lua>, mlua::Error>) {
    lua.create_table()
}

/// `mlua::Lua::create_registry_value`: guarda a função no registry do Lua.
#[verifier::external_body]
fn guardar_no_registry<'lua>(lua: &'lua mlua::Lua, f: mlua::Function<'lua>) -> (r: Result<
    mlua::RegistryKey,
    mlua::Error,
>) {
    lua.create_registry_value(f)
}

/// `mlua::Lua::registry_value`: a função guardada sob a chave do registry.
#[verifier::external_body]
fn funcao_do_registry<'lua>(lua: &'lua mlua::Lua, k: &mlua::RegistryKey) -> (r: Result<
    mlua::Function<'lua>,
    mlua::Error,
>) {
    lua.registry_value::<mlua::Function>(k)
}

/// `mlua::Function::call` com `(chave, valor)`, esperando uma tabela de volta.
#[verifier::external_body]
fn chamar_extensao<'lua>(f: &mlua::Function<'lua>, chave: &str, valor: &str) -> (r: Result<
    mlua::Table<'lua>,
    mlua::Error,
>) {
    f.call((chave.to_string(), valor.to_string()))
}

/// `mlua::Lua::create_function` com a função `registrar_extensao`, que chama
/// `registrar_para_lua`.
#[verifier::external_body]
fn criar_funcao_registrar<'lua>(lua: &'lua mlua::Lua, registros: Registros) -> (r: Result<
    mlua::Function<'lua>,
    mlua::Error,
>) {
    lua.create_function(
        move |lua_ctx, (prefixo, operacoes): (String, mlua::Table)|
            registrar_para_lua(lua_ctx, &registros, prefixo, operacoes),
    )
}

/// `mlua::Lua::create_function` com a função `consultar`, que chama `Store::buscar`.
#[verifier::external_body]
fn criar_funcao_consultar<'lua>(lua: &'lua mlua::Lua, store: Store) -> (r: Result<
    mlua::Function<'lua>,
    mlua::Error,
>) {
    lua.create_function(move |_, chave: String| Ok(store.buscar(&chave)))
}

/// `mlua::Lua::create_function` com a função `listar`, que chama `listar_para_lua`.
#[verifier::external_body]
fn criar_funcao_listar<'lua>(lua: &'lua mlua::Lua, store: Store) -> (r: Result<
    mlua::Function<'lua>,
    mlua::Error,
>) {
    lua.create_function(move |lua_ctx, prefixo: String| listar_para_lua(lua_ctx, &store, prefixo))
}

/// `mlua::Lua::load`: prepara o código de um arquivo para execução.
#[verifier::external_body]
fn preparar_trecho<'lua, 'a>(lua: &'lua mlua::Lua, codigo: &'a str) -> (r: mlua::Chunk<'lua, 'a>) {
    lua.load(codigo)
}

/// `mlua::Chunk::set_name`: o nome com que o trecho aparece nas mensagens de erro.
#[verifier::external_body]
fn nomear_trecho<'lua, 'a>(trecho: mlua::Chunk<'lua, 'a>, nome: &str) -> (r: mlua::Chunk<'lua, 'a>) {
    trecho.set_name(nome)
}

/// `mlua::Chunk::exec`: executa o trecho.
#[verifier::external_body]
fn executar_trecho<'lua, 'a>(trecho: mlua::Chunk<'lua, 'a>) -> (r: Result<(), mlua::Error>) {
    trecho.exec()
}

/// `mlua::Error` formatado com `Display`.
#[verifier::external_body]
fn texto_do_erro(erro: &mlua::Error) -> (r: String) {
    erro.to_string()
}

/// `mlua::Error::RuntimeError(msg)`.
#[verifier::external_body]
fn erro_de_execucao(msg: String) -> (r: mlua::Error) {
    mlua::Error::RuntimeError(msg)
}

} // verus!
