//! PBRLang: um compilador de uma linguagem de script com palavras-chave em
//! português (algumas de várias palavras, como "para cada" e "quando der erro")
//! para código-fonte Rust.
//!
//! O caminho é: texto → [`lexer`] (tokens) ou [`parser`] (árvore sintática,
//! [`ast`]) → [`transpiler`] (código Rust). [`caixotes`] lê e escreve o
//! manifesto de um pacote, e [`projeto`] lê a configuração de um projeto.

pub mod ast;
pub mod gramatica;
pub mod caixotes;
pub mod lexer;
pub mod parser;
pub mod projeto;
pub mod texto;
pub mod transpiler;

pub use ast::{Declaracao, Expressao, Operador, Programa, Tipo};
pub use lexer::tokenizar;
pub use parser::{analisar_codigo, PBRParser};
pub use transpiler::gerar_codigo_rust;
