# banco-memoria

Banco de dados chave-valor em memória, no estilo Redis/Memcached, com
extensões escritas em Lua (embarcadas via `mlua`). A biblioteca é verificada
com Verus.

## Organização

```
src/
├── lib.rs        — raiz da biblioteca
├── texto.rs      — modelo de operações sobre texto (trim, find, prefixo, ordem) e suas versões executáveis
├── comando.rs    — a gramática de ADD/GET/EXIT como especificação, e `interpretar` provado igual a ela
├── store.rs      — `Tabela` (mapa com modelo `Map<Seq<char>, V>`) e `Store` (o banco compartilhado entre clones)
├── lua_bridge.rs — ÚNICO módulo que usa `mlua`: registro, escolha e chamada das extensões, carga dos arquivos
└── motor.rs      — o que fazer com cada comando e com a resposta de cada extensão
app/
├── main.rs       — lê o diretório `extensions/` e roda o laço
└── entrada.rs    — laço de leitura: prompt, linha, resposta
tests/            — testes da gramática, do banco e da ponte (com extensões Lua de verdade)
```

Dependências entre módulos: `comando` e `store` só usam `texto`; `lua_bridge`
usa `store` e `texto`; `motor` usa os três. `mlua` só aparece em
`lua_bridge.rs` (e em `app/main.rs`, para reportar a falha ao montar a ponte).

## O que está provado

- `interpretar` devolve exatamente o que a gramática (`interpretacao`) diz,
  inclusive a mensagem de cada erro de sintaxe; leis: `ADD chave valor` e
  `GET chave` são lidos como tais, quebras de linha finais não mudam a
  leitura, e uma linha em branco é sempre "linha vazia".
- `Tabela`: gravar e ler seguem o modelo de mapa (ler depois de gravar,
  gravar não mexe nas outras chaves, a última gravação vence), e a listagem
  por prefixo devolve exatamente os pares cuja chave começa com o prefixo.
- A chave de uma extensão é o prefixo antes do primeiro `_`; a escolha da
  função registrada segue esse prefixo; os arquivos carregados são só os
  `.lua`, em ordem alfabética.
- O motor: sem extensão, ou com `Sucesso(None)`, vale o valor original; com
  `Sucesso(Some(v))`, vale `v`; com `Falha(motivo)`, a resposta é
  `ERRO: motivo`.

O que a VM do Lua faz (e o conteúdo do banco compartilhado visto por um
`Store`) não é descrito pelos contratos: as chamadas a `mlua` passam por
funções de confiança pequenas, documentadas em `lua_bridge.rs`.
