//! O motor: decide, para cada linha, o que fazer com o banco e com as
//! extensões, e qual resposta escrever.
//!
//! - `ADD`: a extensão do prefixo da chave (se houver) valida o valor e pode
//!   trocá-lo pelo valor a gravar; se ela recusar, o banco não muda.
//! - `GET`: o valor gravado passa pela extensão (se houver), que pode
//!   formatá-lo para a tela.
//! - Qualquer erro vira `ERRO: <motivo>`; só `EXIT` encerra.

use vstd::prelude::*;
use vstd::string::*;

use crate::comando::{interpretacao, interpretar, Comando, ComandoAbstrato};
use crate::lua_bridge::{Bridge, ResultadoExtensao};
use crate::store::{consulta, Store};

verus! {

/// O texto que uma operação produz, dado o que a extensão respondeu:
/// sem extensão, ou com `Sucesso(None)`, vale o original; com
/// `Sucesso(Some(v))`, vale `v`; com `Falha(motivo)`, a operação falha.
pub open spec fn efeito(resultado: ResultadoExtensao, original: String) -> Result<String, String> {
    match resultado {
        ResultadoExtensao::SemExtensao => Ok(original),
        ResultadoExtensao::Sucesso(Some(v)) => Ok(v),
        ResultadoExtensao::Sucesso(None) => Ok(original),
        ResultadoExtensao::Falha(motivo) => Err(motivo),
    }
}

/// O valor a gravar (no `ADD`) ou a exibir (no `GET`), ou o motivo da falha.
pub fn aplicar_resultado(resultado: ResultadoExtensao, original: String) -> (r: Result<
    String,
    String,
>)
    ensures
        r == efeito(resultado, original),
{
    match resultado {
        ResultadoExtensao::SemExtensao => Ok(original),
        ResultadoExtensao::Sucesso(Some(v)) => Ok(v),
        ResultadoExtensao::Sucesso(None) => Ok(original),
        ResultadoExtensao::Falha(motivo) => Err(motivo),
    }
}

pub open spec fn texto_de_erro(motivo: Seq<char>) -> Seq<char> {
    "ERRO: "@ + motivo
}

/// `ERRO: <motivo>`.
pub fn resposta_de_erro(motivo: &str) -> (r: String)
    ensures
        r@ == texto_de_erro(motivo@),
        "ERRO: "@.is_prefix_of(r@),
{
    let mut r = String::from_str("ERRO: ");
    r.append(motivo);
    assert(r@.subrange(0, "ERRO: "@.len() as int) =~= "ERRO: "@);
    r
}

/// O que um `ADD` grava (se gravar) e o que responde: com o valor que
/// cabe, grava-o e responde `OK`; com uma falha, não grava nada e responde
/// o erro.
pub open spec fn resposta_add_spec(resultado: ResultadoExtensao, valor: String) -> (
    Option<String>,
    Seq<char>,
) {
    match efeito(resultado, valor) {
        Ok(v) => (Some(v), "OK"@),
        Err(m) => (None, texto_de_erro(m@)),
    }
}

/// O banco depois de um `ADD` da chave, dado o que a extensão respondeu.
pub open spec fn banco_apos_add(
    m: Map<Seq<char>, String>,
    chave: Seq<char>,
    resultado: ResultadoExtensao,
    valor: String,
) -> Map<Seq<char>, String> {
    match resposta_add_spec(resultado, valor).0 {
        Some(v) => m.insert(chave, v),
        None => m,
    }
}

/// Um `ADD` aceito grava o valor que a extensão deixou (o transformado, ou
/// o original) e responde `OK`, substituindo o que houvesse sob a chave;
/// um `ADD` recusado não muda o banco e responde `ERRO: <motivo>`.
pub proof fn lei_add_grava_ou_recusa(
    m: Map<Seq<char>, String>,
    chave: Seq<char>,
    resultado: ResultadoExtensao,
    valor: String,
)
    ensures
        match resultado {
            ResultadoExtensao::Falha(motivo) => {
                &&& banco_apos_add(m, chave, resultado, valor) == m
                &&& resposta_add_spec(resultado, valor).1 == texto_de_erro(motivo@)
            },
            ResultadoExtensao::Sucesso(Some(v)) => {
                &&& consulta(banco_apos_add(m, chave, resultado, valor), chave) == Some(v)
                &&& resposta_add_spec(resultado, valor).1 == "OK"@
            },
            _ => {
                &&& consulta(banco_apos_add(m, chave, resultado, valor), chave) == Some(valor)
                &&& resposta_add_spec(resultado, valor).1 == "OK"@
            },
        },
        forall|outra: Seq<char>|
            outra != chave ==> consulta(banco_apos_add(m, chave, resultado, valor), outra)
                == consulta(m, outra),
{
}

/// O valor a gravar num `ADD` (se houver) e a resposta, dado o que a extensão respondeu.
pub fn resposta_add(resultado: ResultadoExtensao, valor: String) -> (r: (Option<String>, String))
    ensures
        r.0 == resposta_add_spec(resultado, valor).0,
        r.1@ == resposta_add_spec(resultado, valor).1,
        r.1@ == "OK"@ || "ERRO: "@.is_prefix_of(r.1@),
{
    match aplicar_resultado(resultado, valor) {
        Ok(v) => (Some(v), String::from_str("OK")),
        Err(motivo) => (None, resposta_de_erro(motivo.as_str())),
    }
}

/// A resposta de um `GET` de uma chave existente: o texto que cabe, ou o erro.
pub open spec fn resposta_get_spec(resultado: ResultadoExtensao, valor: String) -> Seq<char> {
    match efeito(resultado, valor) {
        Ok(t) => t@,
        Err(m) => texto_de_erro(m@),
    }
}

/// A resposta de um `GET` de uma chave existente, dado o valor gravado e o
/// que a extensão respondeu.
pub fn resposta_get(resultado: ResultadoExtensao, valor: String) -> (r: String)
    ensures
        r@ == resposta_get_spec(resultado, valor),
{
    match aplicar_resultado(resultado, valor) {
        Ok(texto) => texto,
        Err(motivo) => resposta_de_erro(motivo.as_str()),
    }
}

/// O banco e a ponte com as extensões, juntos.
pub struct Motor {
    store: Store,
    bridge: Bridge,
}

impl Motor {
    /// O banco com que o motor trabalha.
    pub closed spec fn banco(&self) -> Store {
        self.store
    }

    /// A ponte com as extensões que o motor consulta.
    pub closed spec fn ponte(&self) -> Bridge {
        self.bridge
    }

    /// Junta o banco e a ponte.
    pub fn new(store: Store, bridge: Bridge) -> (m: Motor)
        ensures
            m.banco() == store,
            m.ponte() == bridge,
    {
        Motor { store, bridge }
    }

    /// Executa um `ADD` já interpretado.
    fn processar_add(&self, chave: String, valor: String) -> (r: String)
        ensures
            r@ == "OK"@ || "ERRO: "@.is_prefix_of(r@),
    {
        // A extensão roda antes de qualquer escrita: se ela consultar o banco,
        // vê o estado de antes deste `ADD`.
        let resultado = self.bridge.tratar_add(chave.as_str(), valor.as_str());
        self.concluir_add(chave.as_str(), resultado, valor)
    }

    /// Termina um `ADD` com o que a extensão respondeu: grava o valor que
    /// cabe (se couber) e dá a resposta.
    fn concluir_add(&self, chave: &str, resultado: ResultadoExtensao, valor: String) -> (r: String)
        ensures
            r@ == resposta_add_spec(resultado, valor).1,
            r@ == "OK"@ || "ERRO: "@.is_prefix_of(r@),
    {
        let (gravar, resposta) = resposta_add(resultado, valor);
        if let Some(v) = gravar {
            self.store.inserir(chave, v.as_str());
        }
        resposta
    }

    /// Executa um `GET` já interpretado.
    fn processar_get(&self, chave: String) -> (r: String) {
        match self.store.buscar(chave.as_str()) {
            None => resposta_de_erro("chave inexistente"),
            Some(valor) => {
                let resultado = self.bridge.tratar_get(chave.as_str(), valor.as_str());
                resposta_get(resultado, valor)
            },
        }
    }

    /// A resposta a uma linha: `None` encerra o programa (`EXIT`); `Some`
    /// é o que se escreve na tela.
    pub fn processar(&self, linha: &str) -> (r: Option<String>)
        ensures
            r is None <==> interpretacao(linha@) == Ok::<ComandoAbstrato, Seq<char>>(
                ComandoAbstrato::Exit,
            ),
            interpretacao(linha@) matches Err(motivo) ==> r matches Some(t) && t@ == texto_de_erro(
                motivo,
            ),
            interpretacao(linha@) matches Ok(ComandoAbstrato::Add { .. }) ==> r matches Some(t) && (
            t@ == "OK"@ || "ERRO: "@.is_prefix_of(t@)),
    {
        match interpretar(linha) {
            Err(erro) => Some(resposta_de_erro(erro.0.as_str())),
            Ok(Comando::Exit) => None,
            Ok(Comando::Add { chave, valor }) => Some(self.processar_add(chave, valor)),
            Ok(Comando::Get { chave }) => Some(self.processar_get(chave)),
        }
    }
}

} // verus!
