//! Interpretação de comandos: transforma uma linha de texto crua em um
//! `Comando` (`ADD`, `GET` ou `EXIT`), ou num erro de sintaxe.
//!
//! Este módulo não sabe nada sobre armazenamento nem sobre extensões —
//! só entende a gramática dos três comandos. A gramática está escrita como
//! modelo em `interpretacao`, e `interpretar` é provada igual a ele.

use vstd::prelude::*;
use vstd::string::*;

use crate::texto::{
    eh_espaco, eh_quebra, fim_sem_espaco, fim_sem_quebra, inicio_sem_espaco,
    lema_fim_sem_quebra_limites, lema_fim_sem_quebra_sufixo, lema_posicao_de_achada, aparado, apenas_espacos, caracteres, contem, fim_sem_quebras, limites_aparados, posicao,
    primeira, so_espacos, sem_quebras_finais, trecho_igual,
};

verus! {

/// Um comando já interpretado, pronto para ser executado pelo motor.
#[derive(Debug, PartialEq, Eq)]
pub enum Comando {
    Add { chave: String, valor: String },
    Get { chave: String },
    Exit,
}

/// Erro de sintaxe ao interpretar uma linha.
#[derive(Debug, PartialEq, Eq)]
pub struct ErroSintaxe(pub String);

/// O conteúdo de um `Comando`, com os textos vistos como sequências de caracteres.
pub enum ComandoAbstrato {
    Add { chave: Seq<char>, valor: Seq<char> },
    Get { chave: Seq<char> },
    Exit,
}

impl View for Comando {
    type V = ComandoAbstrato;

    open spec fn view(&self) -> ComandoAbstrato {
        match self {
            Comando::Add { chave, valor } => ComandoAbstrato::Add { chave: chave@, valor: valor@ },
            Comando::Get { chave } => ComandoAbstrato::Get { chave: chave@ },
            Comando::Exit => ComandoAbstrato::Exit,
        }
    }
}

/// O resultado de `interpretar`, com a mensagem de erro vista como texto.
pub open spec fn visao_resultado(r: Result<Comando, ErroSintaxe>) -> Result<
    ComandoAbstrato,
    Seq<char>,
> {
    match r {
        Ok(c) => Ok(c@),
        Err(e) => Err(e.0@),
    }
}

pub open spec fn msg_linha_vazia() -> Seq<char> {
    "linha vazia"@
}

pub open spec fn msg_exit_com_argumentos() -> Seq<char> {
    "EXIT não recebe argumentos"@
}

pub open spec fn msg_uso_add() -> Seq<char> {
    "uso: ADD chave valor"@
}

pub open spec fn msg_add_sem_valor() -> Seq<char> {
    "uso: ADD chave valor (valor ausente)"@
}

pub open spec fn msg_uso_get() -> Seq<char> {
    "uso: GET chave"@
}

pub open spec fn msg_get_varias_chaves() -> Seq<char> {
    "uso: GET chave (apenas uma chave)"@
}

pub open spec fn msg_desconhecido(verbo: Seq<char>) -> Seq<char> {
    "comando desconhecido: '"@ + verbo + "'"@
}

/// O que vem depois de `ADD `: a chave vai até o primeiro espaço, e o valor é
/// todo o resto (pode conter espaços).
pub open spec fn interpretacao_add(resto: Seq<char>) -> Result<ComandoAbstrato, Seq<char>> {
    if so_espacos(resto) {
        Err(msg_uso_add())
    } else {
        match primeira(resto, ' ') {
            Some(p) => {
                let chave = resto.subrange(0, p);
                let valor = resto.subrange(p + 1, resto.len() as int);
                if chave.len() == 0 {
                    Err(msg_uso_add())
                } else if valor.len() == 0 {
                    Err(msg_add_sem_valor())
                } else {
                    Ok(ComandoAbstrato::Add { chave, valor })
                }
            },
            None => Err(msg_add_sem_valor()),
        }
    }
}

/// O que vem depois de `GET `: uma única chave, sem espaços ao redor.
pub open spec fn interpretacao_get(resto: Seq<char>) -> Result<ComandoAbstrato, Seq<char>> {
    let chave = aparado(resto);
    if chave.len() == 0 {
        Err(msg_uso_get())
    } else if chave.contains(' ') {
        Err(msg_get_varias_chaves())
    } else {
        Ok(ComandoAbstrato::Get { chave })
    }
}

/// A gramática inteira: o verbo vai até o primeiro espaço da linha (sem as
/// quebras de linha do fim), e o resto é o argumento.
pub open spec fn interpretacao(linha: Seq<char>) -> Result<ComandoAbstrato, Seq<char>> {
    let l = sem_quebras_finais(linha);
    if so_espacos(l) {
        Err(msg_linha_vazia())
    } else {
        let verbo = match primeira(l, ' ') {
            Some(p) => l.subrange(0, p),
            None => l,
        };
        let resto = match primeira(l, ' ') {
            Some(p) => l.subrange(p + 1, l.len() as int),
            None => Seq::empty(),
        };
        if verbo == "ADD"@ {
            interpretacao_add(resto)
        } else if verbo == "GET"@ {
            interpretacao_get(resto)
        } else if verbo == "EXIT"@ {
            if so_espacos(resto) {
                Ok(ComandoAbstrato::Exit)
            } else {
                Err(msg_exit_com_argumentos())
            }
        } else {
            Err(msg_desconhecido(verbo))
        }
    }
}

/// Uma linha `ADD chave valor` é lida como esse `ADD`, qualquer que seja o
/// valor (inclusive com espaços), desde que a chave não seja vazia nem tenha
/// espaços em branco, e que o valor não seja vazio nem termine em quebra de linha.
pub proof fn lei_add_chave_valor(chave: Seq<char>, valor: Seq<char>)
    requires
        chave.len() > 0,
        forall|k: int| 0 <= k < chave.len() ==> !eh_espaco(#[trigger] chave[k]),
        valor.len() > 0,
        !eh_quebra(valor[valor.len() - 1]),
    ensures
        interpretacao("ADD"@ + seq![' '] + chave + seq![' '] + valor) == Ok::<
            ComandoAbstrato,
            Seq<char>,
        >(ComandoAbstrato::Add { chave, valor }),
{
    reveal_strlit("ADD");
    let linha = "ADD"@ + seq![' '] + chave + seq![' '] + valor;
    let n = linha.len() as int;
    assert(linha[n - 1] == valor[valor.len() - 1]);
    assert(fim_sem_quebra(linha, n) == n);
    let l = sem_quebras_finais(linha);
    assert(l =~= linha);
    assert(!eh_espaco(l[0]));
    lema_posicao_de_achada(l, ' ', 0, 3);
    assert(l.subrange(0, 3) =~= "ADD"@);
    let resto = l.subrange(4, n);
    assert(resto =~= chave + seq![' '] + valor);
    assert(resto[0] == chave[0]);
    assert forall|k: int| 0 <= k < chave.len() implies resto[k] != ' ' by {
        assert(resto[k] == chave[k]);
    }
    lema_posicao_de_achada(resto, ' ', 0, chave.len() as int);
    assert(resto.subrange(0, chave.len() as int) =~= chave);
    assert(resto.subrange(chave.len() as int + 1, resto.len() as int) =~= valor);
}

/// Uma linha `GET chave` é lida como esse `GET` quando a chave não é vazia
/// nem tem espaços em branco.
pub proof fn lei_get_chave(chave: Seq<char>)
    requires
        chave.len() > 0,
        forall|k: int| 0 <= k < chave.len() ==> !eh_espaco(#[trigger] chave[k]),
    ensures
        interpretacao("GET"@ + seq![' '] + chave) == Ok::<ComandoAbstrato, Seq<char>>(
            ComandoAbstrato::Get { chave },
        ),
{
    reveal_strlit("GET");
    reveal_strlit("ADD");
    let linha = "GET"@ + seq![' '] + chave;
    let n = linha.len() as int;
    assert(linha[n - 1] == chave[chave.len() - 1]);
    assert(!eh_espaco(chave[chave.len() - 1]));
    assert(fim_sem_quebra(linha, n) == n);
    let l = sem_quebras_finais(linha);
    assert(l =~= linha);
    assert(!eh_espaco(l[0]));
    lema_posicao_de_achada(l, ' ', 0, 3);
    assert(l.subrange(0, 3) =~= "GET"@);
    let resto = l.subrange(4, n);
    assert(resto =~= chave);
    assert(fim_sem_espaco(chave, chave.len() as int) == chave.len());
    assert(chave.subrange(0, chave.len() as int) =~= chave);
    assert(!eh_espaco(chave[0]));
    assert(inicio_sem_espaco(chave, 0) == 0);
    assert(aparado(resto) =~= chave);
    assert(!chave.contains(' ')) by {
        if chave.contains(' ') {
            let k = choose|k: int| 0 <= k < chave.len() && chave[k] == ' ';
            assert(!eh_espaco(chave[k]));
        }
    }
}

/// Quebras de linha (`\r`, `\n`) no fim da linha não mudam a leitura.
pub proof fn lei_quebras_finais(linha: Seq<char>, q: Seq<char>)
    requires
        forall|k: int| 0 <= k < q.len() ==> eh_quebra(#[trigger] q[k]),
    ensures
        interpretacao(linha + q) == interpretacao(linha),
{
    let t = linha + q;
    lema_fim_sem_quebra_sufixo(linha, q);
    lema_fim_sem_quebra_limites(linha, linha.len() as int);
    let f = fim_sem_quebra(linha, linha.len() as int);
    assert(sem_quebras_finais(t) =~= sem_quebras_finais(linha)) by {
        assert forall|k: int| 0 <= k < f implies t[k] == linha[k] by {}
    }
}

/// Uma linha só de espaços em branco (ou vazia) é sempre recusada como vazia.
pub proof fn lei_linha_em_branco(linha: Seq<char>)
    requires
        so_espacos(linha),
    ensures
        interpretacao(linha) == Err::<ComandoAbstrato, Seq<char>>(msg_linha_vazia()),
{
    lema_fim_sem_quebra_limites(linha, linha.len() as int);
    let l = sem_quebras_finais(linha);
    assert forall|k: int| 0 <= k < l.len() implies eh_espaco(#[trigger] l[k]) by {
        assert(l[k] == linha[k]);
    }
}

fn erro(msg: &str) -> (e: ErroSintaxe)
    ensures
        e.0@ == msg@,
{
    ErroSintaxe(String::from_str(msg))
}

/// Interpreta uma linha de entrada. Nunca entra em pânico: qualquer entrada
/// mal formada vira `Err(ErroSintaxe)`, e quem chamar decide como reportar.
pub fn interpretar(linha: &str) -> (r: Result<Comando, ErroSintaxe>)
    ensures
        visao_resultado(r) == interpretacao(linha@),
{
    let v = caracteres(linha);
    let n = fim_sem_quebras(&v);
    let ghost l = sem_quebras_finais(linha@);
    assert(l =~= v@.subrange(0, n as int));
    if apenas_espacos(&v, 0, n) {
        return Err(erro("linha vazia"));
    }
    let (fim_verbo, inicio_resto) = match posicao(&v, ' ', n) {
        Some(p) => (p, p + 1),
        None => (n, n),
    };
    let resto = linha.substring_char(inicio_resto, n);
    assert(resto@ =~= match primeira(l, ' ') {
        Some(p) => l.subrange(p + 1, l.len() as int),
        None => Seq::<char>::empty(),
    });
    assert(v@.subrange(0, fim_verbo as int) =~= match primeira(l, ' ') {
        Some(p) => l.subrange(0, p),
        None => l,
    });
    if trecho_igual(&v, 0, fim_verbo, "ADD") {
        interpretar_add(resto)
    } else if trecho_igual(&v, 0, fim_verbo, "GET") {
        interpretar_get(resto)
    } else if trecho_igual(&v, 0, fim_verbo, "EXIT") {
        let rv = caracteres(resto);
        if apenas_espacos(&rv, 0, rv.len()) {
            assert(rv@.subrange(0, rv@.len() as int) =~= rv@);
            Ok(Comando::Exit)
        } else {
            assert(rv@.subrange(0, rv@.len() as int) =~= rv@);
            Err(erro("EXIT não recebe argumentos"))
        }
    } else {
        let verbo = linha.substring_char(0, fim_verbo);
        let mut msg = String::from_str("comando desconhecido: '");
        msg.append(verbo);
        msg.append("'");
        Err(ErroSintaxe(msg))
    }
}

fn interpretar_add(resto: &str) -> (r: Result<Comando, ErroSintaxe>)
    ensures
        visao_resultado(r) == interpretacao_add(resto@),
{
    let v = caracteres(resto);
    let n = v.len();
    assert(v@.subrange(0, n as int) =~= v@);
    if apenas_espacos(&v, 0, n) {
        return Err(erro("uso: ADD chave valor"));
    }
    match posicao(&v, ' ', n) {
        Some(pos) => {
            // O valor é tudo que vem depois do primeiro espaço — pode
            // conter espaços à vontade.
            if pos == 0 {
                return Err(erro("uso: ADD chave valor"));
            }
            if pos + 1 == n {
                return Err(erro("uso: ADD chave valor (valor ausente)"));
            }
            let chave = resto.substring_char(0, pos);
            let valor = resto.substring_char(pos + 1, n);
            Ok(Comando::Add { chave: String::from_str(chave), valor: String::from_str(valor) })
        },
        None => Err(erro("uso: ADD chave valor (valor ausente)")),
    }
}

fn interpretar_get(resto: &str) -> (r: Result<Comando, ErroSintaxe>)
    ensures
        visao_resultado(r) == interpretacao_get(resto@),
{
    let v = caracteres(resto);
    let (ini, fim) = limites_aparados(&v);
    if ini == fim {
        return Err(erro("uso: GET chave"));
    }
    if contem(&v, ' ', ini, fim) {
        return Err(erro("uso: GET chave (apenas uma chave)"));
    }
    let chave = resto.substring_char(ini, fim);
    Ok(Comando::Get { chave: String::from_str(chave) })
}

} // verus!
