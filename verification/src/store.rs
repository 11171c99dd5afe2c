//! Armazenamento chave-valor em memória.
//!
//! Este módulo NÃO sabe nada sobre extensões, Lua ou prefixos de chave.
//! Ele só guarda e recupera pares (chave, valor).
//!
//! `Tabela` é o mapa em si, com o modelo `Map<Seq<char>, V>` e contratos
//! exatos. `Store` é o identificador compartilhado do banco: todos os clones
//! apontam para a mesma `Tabela` (via `Rc<InvCell<..>>`), o que permite à
//! ponte consultar o banco "ao vivo" de dentro das funções expostas ao Lua.

use std::rc::Rc;

use vstd::cell::invcell::InvCell;
use vstd::predicate::Predicate;
use vstd::prelude::*;
use vstd::string::*;

use crate::texto::{caracteres, comeca_com};

verus! {

/// O valor guardado sob a chave `k`, se houver.
pub open spec fn consulta<V>(m: Map<Seq<char>, V>, k: Seq<char>) -> Option<V> {
    if m.contains_key(k) {
        Some(m[k])
    } else {
        None
    }
}

/// `r` lista exatamente os pares de `m` cuja chave começa com `p`, cada chave
/// uma vez só (em qualquer ordem).
pub open spec fn listagem_por_prefixo(
    m: Map<Seq<char>, String>,
    p: Seq<char>,
    r: Seq<(String, String)>,
) -> bool {
    &&& forall|i: int|
        0 <= i < r.len() ==> {
            &&& p.is_prefix_of(#[trigger] r[i].0@)
            &&& m.contains_key(r[i].0@)
            &&& m[r[i].0@] == r[i].1
        }
    &&& forall|k: Seq<char>|
        #![trigger m.contains_key(k)]
        m.contains_key(k) && p.is_prefix_of(k) ==> exists|i: int|
            0 <= i < r.len() && #[trigger] r[i].0@ == k
    &&& forall|i: int, j: int| 0 <= i < j < r.len() ==> r[i].0@ != r[j].0@
}

/// Ler depois de gravar: a chave gravada devolve o valor gravado.
pub proof fn lei_ler_apos_gravar<V>(m: Map<Seq<char>, V>, k: Seq<char>, v: V)
    ensures
        consulta(m.insert(k, v), k) == Some(v),
{
}

/// Gravar uma chave não muda o que as outras devolvem.
pub proof fn lei_gravar_preserva_outras<V>(m: Map<Seq<char>, V>, k: Seq<char>, v: V, outra: Seq<char>)
    requires
        outra != k,
    ensures
        consulta(m.insert(k, v), outra) == consulta(m, outra),
{
}

/// Gravar de novo a mesma chave substitui o valor: vale a última gravação.
pub proof fn lei_ultima_gravacao_vence<V>(m: Map<Seq<char>, V>, k: Seq<char>, v1: V, v2: V)
    ensures
        m.insert(k, v1).insert(k, v2) == m.insert(k, v2),
{
    assert(m.insert(k, v1).insert(k, v2) =~= m.insert(k, v2));
}

/// Um banco novo não tem chave nenhuma.
pub proof fn lei_banco_novo_vazio<V>(k: Seq<char>)
    ensures
        consulta(Map::<Seq<char>, V>::empty(), k) is None,
{
}

/// O que a listagem devolve é o que a busca exata devolve para cada chave.
pub proof fn lei_listagem_concorda_com_busca(
    m: Map<Seq<char>, String>,
    p: Seq<char>,
    r: Seq<(String, String)>,
    i: int,
)
    requires
        listagem_por_prefixo(m, p, r),
        0 <= i < r.len(),
    ensures
        consulta(m, r[i].0@) == Some(r[i].1),
{
}

/// A listagem é completa: toda chave guardada que começa com o prefixo
/// aparece, com o valor guardado — mesmo que outras chaves tenham o mesmo valor.
pub proof fn lei_listagem_completa(
    m: Map<Seq<char>, String>,
    p: Seq<char>,
    r: Seq<(String, String)>,
    k: Seq<char>,
)
    requires
        listagem_por_prefixo(m, p, r),
        m.contains_key(k),
        p.is_prefix_of(k),
    ensures
        exists|i: int| 0 <= i < r.len() && r[i].0@ == k && r[i].1 == m[k],
{
    let i = choose|i: int| 0 <= i < r.len() && #[trigger] r[i].0@ == k;
    assert(r[i].1 == m[k]);
}

/// Duas chaves distintas com o mesmo valor e o prefixo aparecem ambas na
/// listagem, em posições diferentes.
pub proof fn lei_listagem_mantem_valores_repetidos(
    m: Map<Seq<char>, String>,
    p: Seq<char>,
    r: Seq<(String, String)>,
    k1: Seq<char>,
    k2: Seq<char>,
)
    requires
        listagem_por_prefixo(m, p, r),
        m.contains_key(k1),
        m.contains_key(k2),
        k1 != k2,
        p.is_prefix_of(k1),
        p.is_prefix_of(k2),
    ensures
        exists|i: int, j: int|
            0 <= i < r.len() && 0 <= j < r.len() && i != j && r[i].0@ == k1 && r[j].0@ == k2
                && r[i].1 == m[k1] && r[j].1 == m[k2],
{
    lei_listagem_completa(m, p, r, k1);
    lei_listagem_completa(m, p, r, k2);
    let i = choose|i: int| 0 <= i < r.len() && r[i].0@ == k1 && r[i].1 == m[k1];
    let j = choose|j: int| 0 <= j < r.len() && r[j].0@ == k2 && r[j].1 == m[k2];
    assert(i != j);
}

/// Gravar sempre grava: o valor lido depois é o gravado, mesmo que o mesmo
/// valor já esteja guardado sob outra chave ou a chave já exista.
pub proof fn lei_gravar_independe_do_que_ha(
    m: Map<Seq<char>, String>,
    k: Seq<char>,
    v: String,
    outra: Seq<char>,
)
    requires
        m.contains_key(outra),
        m[outra] == v,
        outra != k,
    ensures
        consulta(m.insert(k, v), k) == Some(v),
        consulta(m.insert(k, v), outra) == Some(v),
{
}

/// A listagem por um prefixo da chave recém-gravada mostra o par gravado.
pub proof fn lei_listagem_ve_a_gravacao(
    m: Map<Seq<char>, String>,
    k: Seq<char>,
    v: String,
    p: Seq<char>,
    r: Seq<(String, String)>,
)
    requires
        p.is_prefix_of(k),
        listagem_por_prefixo(m.insert(k, v), p, r),
    ensures
        exists|i: int| 0 <= i < r.len() && r[i].0@ == k && r[i].1 == v,
{
    let m2 = m.insert(k, v);
    assert(m2.contains_key(k));
    let i = choose|i: int| 0 <= i < r.len() && #[trigger] r[i].0@ == k;
    assert(r[i].1 == m2[k]);
}

/// Um mapa de chaves de texto para valores, guardado como lista de pares
/// sem chaves repetidas.
pub struct Tabela<V> {
    entradas: Vec<(String, V)>,
    modelo: Ghost<Map<Seq<char>, V>>,
}

impl<V> View for Tabela<V> {
    type V = Map<Seq<char>, V>;

    closed spec fn view(&self) -> Map<Seq<char>, V> {
        self.modelo@
    }
}

impl<V> Tabela<V> {
    spec fn chave_em(&self, i: int) -> Seq<char> {
        self.entradas@[i].0@
    }

    /// As entradas não repetem chave e descrevem exatamente o modelo.
    pub closed spec fn bem_formada(&self) -> bool {
        &&& forall|i: int, j: int|
            0 <= i < j < self.entradas@.len() ==> self.chave_em(i) != self.chave_em(j)
        &&& forall|i: int|
            0 <= i < self.entradas@.len() ==> {
                &&& self.modelo@.contains_key(#[trigger] self.chave_em(i))
                &&& self.modelo@[self.chave_em(i)] == self.entradas@[i].1
            }
        &&& forall|k: Seq<char>|
            #![trigger self.modelo@.contains_key(k)]
            self.modelo@.contains_key(k) ==> exists|i: int|
                0 <= i < self.entradas@.len() && #[trigger] self.chave_em(i) == k
    }

    /// Uma tabela vazia.
    pub fn new() -> (t: Self)
        ensures
            t.bem_formada(),
            t@ == Map::<Seq<char>, V>::empty(),
    {
        Tabela { entradas: Vec::new(), modelo: Ghost(Map::empty()) }
    }

    /// Onde está a chave, se estiver.
    fn indice_da_chave(&self, chave: &String) -> (r: Option<usize>)
        requires
            self.bem_formada(),
        ensures
            match r {
                Some(i) => i < self.entradas@.len() && self.chave_em(i as int) == chave@,
                None => forall|i: int|
                    0 <= i < self.entradas@.len() ==> self.chave_em(i) != chave@,
            },
    {
        let mut i: usize = 0;
        while i < self.entradas.len()
            invariant
                i <= self.entradas@.len(),
                forall|k: int| 0 <= k < i ==> self.chave_em(k) != chave@,
            decreases self.entradas@.len() - i,
        {
            if self.entradas[i].0 == *chave {
                return Some(i);
            }
            i = i + 1;
        }
        None
    }

    /// Insere ou substitui o valor associado à chave.
    pub fn inserir(&mut self, chave: String, valor: V)
        requires
            old(self).bem_formada(),
        ensures
            final(self).bem_formada(),
            final(self)@ == old(self)@.insert(chave@, valor),
    {
        let ghost k = chave@;
        let ghost novo = self.modelo@.insert(k, valor);
        match self.indice_da_chave(&chave) {
            Some(i) => {
                self.entradas.set(i, (chave, valor));
                self.modelo = Ghost(novo);
                assert forall|j: int| 0 <= j < self.entradas@.len() implies #[trigger] self.chave_em(
                    j,
                ) == old(self).chave_em(j) by {}
                assert forall|j: int|
                    0 <= j < self.entradas@.len() && j != i implies self.entradas@[j]
                    == old(self).entradas@[j] by {}
                assert forall|k2: Seq<char>| #[trigger]
                    self.modelo@.contains_key(k2) implies exists|j: int|
                    0 <= j < self.entradas@.len() && #[trigger] self.chave_em(j) == k2 by {
                    if k2 == k {
                        assert(self.chave_em(i as int) == k2);
                    } else {
                        let j = choose|j: int|
                            0 <= j < old(self).entradas@.len() && old(self).chave_em(j) == k2;
                        assert(self.chave_em(j) == k2);
                    }
                }
            },
            None => {
                self.entradas.push((chave, valor));
                self.modelo = Ghost(novo);
                let ghost n = old(self).entradas@.len() as int;
                assert(self.chave_em(n) == k);
                assert forall|j: int| 0 <= j < n implies #[trigger] self.chave_em(j)
                    == old(self).chave_em(j) && self.entradas@[j] == old(self).entradas@[j] by {}
                assert forall|k2: Seq<char>| #[trigger]
                    self.modelo@.contains_key(k2) implies exists|j: int|
                    0 <= j < self.entradas@.len() && #[trigger] self.chave_em(j) == k2 by {
                    if k2 == k {
                        assert(self.chave_em(n) == k2);
                    } else {
                        let j = choose|j: int|
                            0 <= j < old(self).entradas@.len() && old(self).chave_em(j) == k2;
                        assert(self.chave_em(j) == k2);
                    }
                }
            },
        }
    }

    /// Busca o valor associado a uma chave exata.
    pub fn buscar(&self, chave: &str) -> (r: Option<&V>)
        requires
            self.bem_formada(),
        ensures
            match r {
                Some(v) => consulta(self@, chave@) == Some(*v),
                None => consulta(self@, chave@) is None,
            },
    {
        let procurada = String::from_str(chave);
        match self.indice_da_chave(&procurada) {
            Some(i) => Some(&self.entradas[i].1),
            None => {
                proof {
                    if self@.contains_key(chave@) {
                        let j = choose|j: int|
                            0 <= j < self.entradas@.len() && #[trigger] self.chave_em(j) == chave@;
                        assert(self.chave_em(j) == procurada@);
                    }
                }
                None
            },
        }
    }
}

impl Tabela<String> {
    /// Todos os pares (chave, valor) cuja chave começa com o prefixo dado.
    /// É só um filtro textual: não sabe o que o prefixo significa.
    pub fn listar_por_prefixo(&self, prefixo: &str) -> (r: Vec<(String, String)>)
        requires
            self.bem_formada(),
        ensures
            listagem_por_prefixo(self@, prefixo@, r@),
    {
        let p = caracteres(prefixo);
        let mut r: Vec<(String, String)> = Vec::new();
        let mut i: usize = 0;
        while i < self.entradas.len()
            invariant
                self.bem_formada(),
                i <= self.entradas@.len(),
                p@ == prefixo@,
                forall|a: int|
                    0 <= a < r@.len() ==> {
                        &&& prefixo@.is_prefix_of(#[trigger] r@[a].0@)
                        &&& self@.contains_key(r@[a].0@)
                        &&& self@[r@[a].0@] == r@[a].1
                        &&& exists|b: int| 0 <= b < i && self.chave_em(b) == r@[a].0@
                    },
                forall|b: int|
                    0 <= b < i && prefixo@.is_prefix_of(#[trigger] self.chave_em(b)) ==> exists|
                        a: int,
                    |
                        0 <= a < r@.len() && #[trigger] r@[a].0@ == self.chave_em(b),
                forall|a: int, c: int| 0 <= a < c < r@.len() ==> r@[a].0@ != r@[c].0@,
            decreases self.entradas@.len() - i,
        {
            let chave = &self.entradas[i].0;
            let kv = caracteres(chave.as_str());
            assert(kv@ == self.chave_em(i as int));
            if comeca_com(&kv, &p) {
                let ghost antes = r@;
                assert forall|a: int| 0 <= a < antes.len() implies antes[a].0@ != self.chave_em(
                    i as int,
                ) by {
                    let b = choose|b: int| 0 <= b < i && self.chave_em(b) == antes[a].0@;
                    assert(self.chave_em(b) != self.chave_em(i as int));
                }
                r.push((chave.clone(), self.entradas[i].1.clone()));
                assert(r@[antes.len() as int].0@ == self.chave_em(i as int));
                assert forall|a: int| 0 <= a < antes.len() implies #[trigger] r@[a] == antes[a] by {}
                assert forall|b: int|
                    0 <= b < i + 1 && prefixo@.is_prefix_of(
                        #[trigger] self.chave_em(b),
                    ) implies exists|a: int|
                    0 <= a < r@.len() && #[trigger] r@[a].0@ == self.chave_em(b) by {
                    if b < i {
                        let a = choose|a: int|
                            0 <= a < antes.len() && #[trigger] antes[a].0@ == self.chave_em(b);
                        assert(r@[a] == antes[a]);
                    } else {
                        assert(r@[antes.len() as int].0@ == self.chave_em(b));
                    }
                }
            }
            i = i + 1;
        }
        assert forall|k: Seq<char>| #[trigger]
            self@.contains_key(k) && prefixo@.is_prefix_of(k) implies exists|a: int|
            0 <= a < r@.len() && #[trigger] r@[a].0@ == k by {
            let b = choose|b: int| 0 <= b < self.entradas@.len() && #[trigger] self.chave_em(b) == k;
            assert(prefixo@.is_prefix_of(self.chave_em(b)));
        }
        r
    }
}

/// A `Tabela` está bem formada: é o que a célula compartilhada garante.
pub struct TabelaValida;

impl<V> Predicate<Tabela<V>> for TabelaValida {
    open spec fn predicate(&self, t: Tabela<V>) -> bool {
        t.bem_formada()
    }
}

/// Armazenamento chave-valor. Barato de clonar: todos os clones apontam
/// para os mesmos dados, o que é o que permite à extensão consultar o banco
/// "ao vivo" em vez de receber uma cópia.
#[derive(Clone)]
pub struct Store {
    dados: Rc<InvCell<Tabela<String>, TabelaValida>>,
}

impl Store {
    /// Um banco vazio.
    pub fn new() -> (s: Self) {
        Store { dados: Rc::new(InvCell::new(Tabela::new(), Ghost(TabelaValida))) }
    }

    /// Tira a tabela da célula, deixando uma vazia no lugar.
    fn retirar(&self) -> (t: Tabela<String>)
        ensures
            t.bem_formada(),
    {
        self.dados.replace(Tabela::new())
    }

    /// Devolve a tabela à célula.
    fn devolver(&self, t: Tabela<String>)
        requires
            t.bem_formada(),
    {
        let _ = self.dados.replace(t);
    }

    /// Insere ou substitui o valor associado à chave.
    pub fn inserir(&self, chave: &str, valor: &str) {
        let mut t = self.retirar();
        t.inserir(String::from_str(chave), String::from_str(valor));
        self.devolver(t);
    }

    /// Busca o valor associado a uma chave exata.
    pub fn buscar(&self, chave: &str) -> (r: Option<String>) {
        let t = self.retirar();
        let r = match t.buscar(chave) {
            Some(v) => Some(v.clone()),
            None => None,
        };
        self.devolver(t);
        r
    }

    /// Retorna todos os pares (chave, valor) cuja chave começa com o
    /// prefixo dado, cada chave uma vez só.
    pub fn listar_por_prefixo(&self, prefixo: &str) -> (r: Vec<(String, String)>)
        ensures
            forall|i: int| 0 <= i < r@.len() ==> prefixo@.is_prefix_of(#[trigger] r@[i].0@),
            forall|i: int, j: int| 0 <= i < j < r@.len() ==> r@[i].0@ != r@[j].0@,
    {
        let t = self.retirar();
        let r = t.listar_por_prefixo(prefixo);
        self.devolver(t);
        r
    }
}

} // verus!
