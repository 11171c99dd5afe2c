//! Operações sobre texto usadas pelo interpretador de comandos e pela ponte:
//! o modelo de cada operação é dado sobre `Seq<char>` (a visão de um `str`),
//! e as versões executáveis trabalham sobre o vetor de caracteres da linha.

use vstd::prelude::*;
use vstd::string::*;

verus! {

/// Espaço em branco no sentido da propriedade Unicode `White_Space`, o mesmo
/// critério que `char::is_whitespace` (e portanto `str::trim`) usa.
pub open spec fn eh_espaco(c: char) -> bool {
    let u = c as u32;
    ||| 0x09 <= u <= 0x0D
    ||| u == 0x20
    ||| u == 0x85
    ||| u == 0xA0
    ||| u == 0x1680
    ||| 0x2000 <= u <= 0x200A
    ||| u == 0x2028
    ||| u == 0x2029
    ||| u == 0x202F
    ||| u == 0x205F
    ||| u == 0x3000
}

/// Os caracteres de fim de linha que o interpretador descarta no fim da linha.
pub open spec fn eh_quebra(c: char) -> bool {
    c == '\r' || c == '\n'
}

/// O texto só tem espaços em branco (inclusive o texto vazio): é o que
/// `texto.trim().is_empty()` testa.
pub open spec fn so_espacos(s: Seq<char>) -> bool {
    forall|i: int| 0 <= i < s.len() ==> eh_espaco(#[trigger] s[i])
}

/// Onde termina `s[..j]` depois de descartar as quebras de linha finais.
pub open spec fn fim_sem_quebra(s: Seq<char>, j: int) -> int
    decreases j,
{
    if 0 < j <= s.len() && eh_quebra(s[j - 1]) {
        fim_sem_quebra(s, j - 1)
    } else {
        j
    }
}

/// Onde termina `s[..j]` depois de descartar os espaços finais.
pub open spec fn fim_sem_espaco(s: Seq<char>, j: int) -> int
    decreases j,
{
    if 0 < j <= s.len() && eh_espaco(s[j - 1]) {
        fim_sem_espaco(s, j - 1)
    } else {
        j
    }
}

/// Onde começa `s[i..]` depois de descartar os espaços iniciais.
pub open spec fn inicio_sem_espaco(s: Seq<char>, i: int) -> int
    decreases s.len() - i,
{
    if 0 <= i < s.len() && eh_espaco(s[i]) {
        inicio_sem_espaco(s, i + 1)
    } else {
        i
    }
}

/// `s.trim_end_matches(['\r', '\n'])`.
pub open spec fn sem_quebras_finais(s: Seq<char>) -> Seq<char> {
    s.subrange(0, fim_sem_quebra(s, s.len() as int))
}

/// `s.trim()`: primeiro os espaços do fim, depois os do começo.
pub open spec fn aparado(s: Seq<char>) -> Seq<char> {
    let t = s.subrange(0, fim_sem_espaco(s, s.len() as int));
    t.subrange(inicio_sem_espaco(t, 0), t.len() as int)
}

/// Primeira posição de `c` em `s` a partir de `i`.
pub open spec fn posicao_de(s: Seq<char>, c: char, i: int) -> Option<int>
    decreases s.len() - i,
{
    if 0 <= i < s.len() {
        if s[i] == c {
            Some(i)
        } else {
            posicao_de(s, c, i + 1)
        }
    } else {
        None
    }
}

/// `s.find(c)`, contada em caracteres.
pub open spec fn primeira(s: Seq<char>, c: char) -> Option<int> {
    posicao_de(s, c, 0)
}

/// O que a busca acha é a primeira ocorrência; se não acha, não há nenhuma.
pub proof fn lema_posicao_de_correta(s: Seq<char>, c: char, i: int)
    requires
        0 <= i,
    ensures
        match posicao_de(s, c, i) {
            Some(p) => i <= p < s.len() && s[p] == c && forall|k: int| i <= k < p ==> s[k] != c,
            None => forall|k: int| i <= k < s.len() ==> s[k] != c,
        },
    decreases s.len() - i,
{
    if i < s.len() && s[i] != c {
        lema_posicao_de_correta(s, c, i + 1);
    }
}

/// A busca acha a primeira posição `p >= i` em que está `c`.
pub proof fn lema_posicao_de_achada(s: Seq<char>, c: char, i: int, p: int)
    requires
        0 <= i <= p < s.len(),
        s[p] == c,
        forall|k: int| i <= k < p ==> s[k] != c,
    ensures
        posicao_de(s, c, i) == Some(p),
    decreases p - i,
{
    if i < p {
        lema_posicao_de_achada(s, c, i + 1, p);
    }
}

/// O corte das quebras finais fica entre `0` e `j`.
pub proof fn lema_fim_sem_quebra_limites(s: Seq<char>, j: int)
    requires
        0 <= j <= s.len(),
    ensures
        0 <= fim_sem_quebra(s, j) <= j,
    decreases j,
{
    if 0 < j && eh_quebra(s[j - 1]) {
        lema_fim_sem_quebra_limites(s, j - 1);
    }
}

/// Quebras de linha acrescentadas ao fim não mudam onde o corte cai.
pub proof fn lema_fim_sem_quebra_sufixo(s: Seq<char>, q: Seq<char>)
    requires
        forall|k: int| 0 <= k < q.len() ==> eh_quebra(#[trigger] q[k]),
    ensures
        fim_sem_quebra(s + q, (s.len() + q.len()) as int) == fim_sem_quebra(s, s.len() as int),
    decreases q.len(),
{
    let t = s + q;
    if q.len() == 0 {
        assert(t =~= s);
    } else {
        let q2 = q.drop_last();
        assert(eh_quebra(q[q.len() - 1]));
        assert(t[t.len() - 1] == q[q.len() - 1]);
        lema_fim_sem_quebra_sufixo(s, q2);
        lema_fim_sem_quebra_prefixo(s + q2, t, (s.len() + q2.len()) as int);
    }
}

/// O corte em `s[..j]` só depende dos primeiros `j` caracteres.
pub proof fn lema_fim_sem_quebra_prefixo(a: Seq<char>, b: Seq<char>, j: int)
    requires
        0 <= j <= a.len(),
        j <= b.len(),
        forall|k: int| 0 <= k < j ==> a[k] == b[k],
    ensures
        fim_sem_quebra(a, j) == fim_sem_quebra(b, j),
    decreases j,
{
    if 0 < j {
        lema_fim_sem_quebra_prefixo(a, b, j - 1);
    }
}

/// O vetor com os caracteres de `s`.
pub fn caracteres(s: &str) -> (v: Vec<char>)
    ensures
        v@ == s@,
{
    let mut v: Vec<char> = Vec::new();
    for c in it: s.chars()
        invariant
            v@ == it.seq().take(it.index() as int),
    {
        v.push(c);
    }
    v
}

/// `c.is_whitespace()`.
pub fn espaco(c: char) -> (b: bool)
    ensures
        b == eh_espaco(c),
{
    let u = c as u32;
    (0x09 <= u && u <= 0x0D) || u == 0x20 || u == 0x85 || u == 0xA0 || u == 0x1680 || (0x2000
        <= u && u <= 0x200A) || u == 0x2028 || u == 0x2029 || u == 0x202F || u == 0x205F || u
        == 0x3000
}

/// Fim de `v` depois de descartar as quebras de linha finais.
pub fn fim_sem_quebras(v: &Vec<char>) -> (j: usize)
    ensures
        j == fim_sem_quebra(v@, v@.len() as int),
        j <= v@.len(),
{
    let mut j = v.len();
    while j > 0 && (v[j - 1] == '\r' || v[j - 1] == '\n')
        invariant
            j <= v@.len(),
            fim_sem_quebra(v@, j as int) == fim_sem_quebra(v@, v@.len() as int),
        decreases j,
    {
        j = j - 1;
    }
    j
}

/// `v[de..ate]` só tem espaços em branco.
pub fn apenas_espacos(v: &Vec<char>, de: usize, ate: usize) -> (b: bool)
    requires
        de <= ate <= v@.len(),
    ensures
        b == so_espacos(v@.subrange(de as int, ate as int)),
{
    let mut i = de;
    while i < ate
        invariant
            de <= i <= ate <= v@.len(),
            forall|k: int| de <= k < i ==> eh_espaco(v@[k]),
        decreases ate - i,
    {
        if !espaco(v[i]) {
            assert(v@.subrange(de as int, ate as int)[i - de] == v@[i as int]);
            return false;
        }
        i = i + 1;
    }
    assert forall|k: int| 0 <= k < ate - de implies eh_espaco(
        #[trigger] v@.subrange(de as int, ate as int)[k],
    ) by {
        assert(v@.subrange(de as int, ate as int)[k] == v@[de + k]);
    }
    true
}

/// Primeira posição de `c` em `v[..ate]`.
pub fn posicao(v: &Vec<char>, c: char, ate: usize) -> (r: Option<usize>)
    requires
        ate <= v@.len(),
    ensures
        match r {
            Some(p) => primeira(v@.subrange(0, ate as int), c) == Some(p as int),
            None => primeira(v@.subrange(0, ate as int), c) is None,
        },
        r matches Some(p) ==> p < ate && v@[p as int] == c,
{
    let ghost s = v@.subrange(0, ate as int);
    let mut i: usize = 0;
    while i < ate
        invariant
            i <= ate <= v@.len(),
            s == v@.subrange(0, ate as int),
            posicao_de(s, c, i as int) == posicao_de(s, c, 0),
        decreases ate - i,
    {
        if v[i] == c {
            assert(s[i as int] == c);
            return Some(i);
        }
        assert(s[i as int] != c);
        i = i + 1;
    }
    None
}

/// `v[de..ate]` contém `c`.
pub fn contem(v: &Vec<char>, c: char, de: usize, ate: usize) -> (b: bool)
    requires
        de <= ate <= v@.len(),
    ensures
        b == v@.subrange(de as int, ate as int).contains(c),
{
    let ghost s = v@.subrange(de as int, ate as int);
    let mut i = de;
    while i < ate
        invariant
            de <= i <= ate <= v@.len(),
            s == v@.subrange(de as int, ate as int),
            forall|k: int| de <= k < i ==> v@[k] != c,
        decreases ate - i,
    {
        if v[i] == c {
            assert(s[i - de] == c);
            return true;
        }
        i = i + 1;
    }
    assert forall|k: int| 0 <= k < s.len() implies s[k] != c by {
        assert(s[k] == v@[de + k]);
    }
    false
}

/// Limites de `v.trim()`: `v[ini..fim]` é o texto aparado.
pub fn limites_aparados(v: &Vec<char>) -> (r: (usize, usize))
    ensures
        r.0 <= r.1 <= v@.len(),
        v@.subrange(r.0 as int, r.1 as int) == aparado(v@),
{
    let ghost s = v@;
    let mut j = v.len();
    while j > 0 && espaco(v[j - 1])
        invariant
            j <= v@.len(),
            s == v@,
            fim_sem_espaco(s, j as int) == fim_sem_espaco(s, s.len() as int),
        decreases j,
    {
        j = j - 1;
    }
    let ghost t = s.subrange(0, j as int);
    let mut i: usize = 0;
    while i < j && espaco(v[i])
        invariant
            i <= j <= v@.len(),
            s == v@,
            t == s.subrange(0, j as int),
            inicio_sem_espaco(t, i as int) == inicio_sem_espaco(t, 0),
        decreases j - i,
    {
        assert(t[i as int] == v@[i as int]);
        i = i + 1;
    }
    if i < j {
        assert(t[i as int] == v@[i as int]);
    }
    assert(t.subrange(i as int, t.len() as int) =~= s.subrange(i as int, j as int));
    (i, j)
}

/// `s` começa com `p`.
pub fn comeca_com(s: &Vec<char>, p: &Vec<char>) -> (b: bool)
    ensures
        b == p@.is_prefix_of(s@),
{
    if p.len() > s.len() {
        return false;
    }
    let mut i: usize = 0;
    while i < p.len()
        invariant
            i <= p@.len() <= s@.len(),
            forall|k: int| 0 <= k < i ==> p@[k] == s@[k],
        decreases p@.len() - i,
    {
        if p[i] != s[i] {
            return false;
        }
        i = i + 1;
    }
    true
}

/// `texto.strip_prefix(prefixo).unwrap_or(texto)`.
pub open spec fn sem_prefixo(texto: Seq<char>, prefixo: Seq<char>) -> Seq<char> {
    if prefixo.is_prefix_of(texto) {
        texto.subrange(prefixo.len() as int, texto.len() as int)
    } else {
        texto
    }
}

/// `texto.strip_prefix(prefixo).unwrap_or(texto).to_string()`.
pub fn remover_prefixo(texto: &str, prefixo: &str) -> (r: String)
    ensures
        r@ == sem_prefixo(texto@, prefixo@),
{
    let t = caracteres(texto);
    let p = caracteres(prefixo);
    if comeca_com(&t, &p) {
        String::from_str(texto.substring_char(p.len(), t.len()))
    } else {
        String::from_str(texto)
    }
}

/// Última posição de `c` em `s[..j]`.
pub open spec fn ultima_posicao(s: Seq<char>, c: char, j: int) -> Option<int>
    decreases j,
{
    if 0 < j <= s.len() {
        if s[j - 1] == c {
            Some(j - 1)
        } else {
            ultima_posicao(s, c, j - 1)
        }
    } else {
        None
    }
}

/// `s.rfind(c)`, contada em caracteres.
pub open spec fn ultima(s: Seq<char>, c: char) -> Option<int> {
    ultima_posicao(s, c, s.len() as int)
}

/// Última posição de `c` em `v`.
pub fn posicao_final(v: &Vec<char>, c: char) -> (r: Option<usize>)
    ensures
        match r {
            Some(p) => ultima(v@, c) == Some(p as int),
            None => ultima(v@, c) is None,
        },
        r matches Some(p) ==> p < v@.len(),
{
    let mut j = v.len();
    while j > 0
        invariant
            j <= v@.len(),
            ultima_posicao(v@, c, j as int) == ultima(v@, c),
        decreases j,
    {
        if v[j - 1] == c {
            return Some(j - 1);
        }
        j = j - 1;
    }
    None
}

/// Ordem lexicográfica por ponto de código (a mesma dos bytes em UTF-8):
/// `a` vem antes de `b`, ou é igual.
pub open spec fn ordem_lexica(a: Seq<char>, b: Seq<char>) -> bool
    decreases a.len(),
{
    if a.len() == 0 {
        true
    } else if b.len() == 0 {
        false
    } else if a[0] != b[0] {
        a[0] < b[0]
    } else {
        ordem_lexica(a.drop_first(), b.drop_first())
    }
}

/// Dois textos sempre se comparam.
pub proof fn lema_ordem_lexica_total(a: Seq<char>, b: Seq<char>)
    ensures
        ordem_lexica(a, b) || ordem_lexica(b, a),
    decreases a.len(),
{
    if a.len() > 0 && b.len() > 0 {
        if a[0] == b[0] {
            lema_ordem_lexica_total(a.drop_first(), b.drop_first());
        } else {
            assert(a[0] < b[0] || b[0] < a[0]);
        }
    }
}

/// A ordem é transitiva.
pub proof fn lema_ordem_lexica_transitiva(a: Seq<char>, b: Seq<char>, c: Seq<char>)
    requires
        ordem_lexica(a, b),
        ordem_lexica(b, c),
    ensures
        ordem_lexica(a, c),
    decreases a.len(),
{
    if a.len() > 0 && b.len() > 0 && c.len() > 0 && a[0] == b[0] && b[0] == c[0] {
        lema_ordem_lexica_transitiva(a.drop_first(), b.drop_first(), c.drop_first());
    }
}

/// `a <= b` na ordem lexicográfica.
pub fn vem_antes_ou_igual(a: &Vec<char>, b: &Vec<char>) -> (r: bool)
    ensures
        r == ordem_lexica(a@, b@),
{
    let mut i: usize = 0;
    assert(a@.skip(0) =~= a@);
    assert(b@.skip(0) =~= b@);
    while i < a.len() && i < b.len() && a[i] == b[i]
        invariant
            i <= a@.len(),
            i <= b@.len(),
            ordem_lexica(a@.skip(i as int), b@.skip(i as int)) == ordem_lexica(a@, b@),
        decreases a@.len() - i,
    {
        assert(a@.skip(i as int).drop_first() =~= a@.skip(i + 1));
        assert(b@.skip(i as int).drop_first() =~= b@.skip(i + 1));
        i = i + 1;
    }
    if i == a.len() {
        true
    } else if i == b.len() {
        false
    } else {
        assert(a@.skip(i as int)[0] == a@[i as int]);
        assert(b@.skip(i as int)[0] == b@[i as int]);
        a[i] < b[i]
    }
}

/// `v[de..ate]` é exatamente o texto `w`.
pub fn trecho_igual(v: &Vec<char>, de: usize, ate: usize, w: &str) -> (b: bool)
    requires
        de <= ate <= v@.len(),
    ensures
        b == (v@.subrange(de as int, ate as int) == w@),
{
    let wv = caracteres(w);
    if wv.len() != ate - de {
        return false;
    }
    let mut i: usize = 0;
    while i < ate - de
        invariant
            de <= ate <= v@.len(),
            i <= ate - de,
            wv@ == w@,
            wv@.len() == ate - de,
            forall|k: int| 0 <= k < i ==> v@[de + k] == wv@[k],
        decreases ate - de - i,
    {
        if v[de + i] != wv[i] {
            assert(v@.subrange(de as int, ate as int)[i as int] != w@[i as int]);
            return false;
        }
        i = i + 1;
    }
    assert(v@.subrange(de as int, ate as int) =~= w@);
    true
}

} // verus!
