//! Banco de dados chave-valor em memória com extensões em Lua.

pub mod texto;
pub mod comando;
pub mod store;
pub mod lua_bridge;
pub mod motor;
