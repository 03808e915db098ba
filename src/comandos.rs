//! The operations offered to the front end that hold rules of their own.
//! The caller owns the store and holds it under its lock for each call.
use vstd::prelude::*;
use crate::database::{
    apos_adicionar, exibicao, Database, MAX_CONCURSOS, MAX_NUMEROS, MIN_NUMEROS,
};
use crate::modelos::{Aposta, Erro, Invalido};

verus! {

/// The first bound that a submitted bet breaks, if any: the count of
/// numbers, then the starting draw, then the number of draws, and last a
/// window that would pass the largest draw number.
pub open spec fn violacao(
    numeros: Seq<i32>,
    concurso_inicial: i32,
    quantidade_concursos: i32,
) -> Option<Invalido> {
    if numeros.len() < MIN_NUMEROS || numeros.len() > MAX_NUMEROS {
        Some(Invalido::QuantidadeNumeros(numeros.len() as usize))
    } else if concurso_inicial <= 0 {
        Some(Invalido::ConcursoInicial(concurso_inicial))
    } else if quantidade_concursos < 1 || quantidade_concursos > MAX_CONCURSOS {
        Some(Invalido::QuantidadeConcursos(quantidade_concursos))
    } else if concurso_inicial + quantidade_concursos > i32::MAX {
        Some(Invalido::ConcursoInicial(concurso_inicial))
    } else {
        None
    }
}

/// Checks a submitted bet against its bounds.
pub fn validar_aposta(numeros: &Vec<i32>, concurso_inicial: i32, quantidade_concursos: i32) -> (r:
    Result<(), Invalido>)
    ensures
        r == (match violacao(numeros@, concurso_inicial, quantidade_concursos) {
            Some(e) => Err(e),
            None => Ok(()),
        }),
{
    if numeros.len() < MIN_NUMEROS || numeros.len() > MAX_NUMEROS {
        Err(Invalido::QuantidadeNumeros(numeros.len()))
    } else if concurso_inicial <= 0 {
        Err(Invalido::ConcursoInicial(concurso_inicial))
    } else if quantidade_concursos < 1 || quantidade_concursos > MAX_CONCURSOS {
        Err(Invalido::QuantidadeConcursos(quantidade_concursos))
    } else if concurso_inicial > i32::MAX - quantidade_concursos {
        Err(Invalido::ConcursoInicial(concurso_inicial))
    } else {
        Ok(())
    }
}

/// Validates a submitted bet and, if it keeps its bounds, stores it and
/// returns it as shown to its owner. A refused bet leaves the store as it is.
pub fn adicionar_aposta(
    db: &mut Database,
    numeros: Vec<i32>,
    concurso_inicial: i32,
    quantidade_concursos: i32,
    data_criacao: String,
) -> (r: Result<Aposta, Erro>)
    requires
        old(db).bem_formado(),
        old(db)@.apostas.len() < i64::MAX,
    ensures
        final(db).bem_formado(),
        match violacao(numeros@, concurso_inicial, quantidade_concursos) {
            Some(e) => r == Err::<Aposta, Erro>(Erro::Validacao(e)) && final(db)@ == old(db)@,
            None => r is Ok && final(db)@ == apos_adicionar(
                old(db)@,
                numeros@,
                concurso_inicial,
                quantidade_concursos,
                data_criacao@,
            ) && r->Ok_0@ == exibicao(final(db)@.apostas.last(), final(db)@.resultados),
        },
{
    match validar_aposta(&numeros, concurso_inicial, quantidade_concursos) {
        Err(e) => Err(Erro::Validacao(e)),
        Ok(()) => Ok(db.adicionar_aposta(numeros, concurso_inicial, quantidade_concursos, data_criacao)),
    }
}

/// The draws to load when the last `quantidade` results are asked for,
/// latest first: from `ultimo` down, never below draw one.
pub open spec fn concursos_recentes_spec(ultimo: i32, quantidade: i32) -> Seq<i32> {
    let n = if quantidade <= 0 || ultimo <= 0 {
        0
    } else if quantidade < ultimo {
        quantidade as int
    } else {
        ultimo as int
    };
    Seq::new(n as nat, |k: int| (ultimo - k) as i32)
}

/// The draw numbers to probe, one after the other, when the last
/// `quantidade` results are loaded: latest first, never below draw one.
pub fn concursos_recentes(ultimo: i32, quantidade: i32) -> (r: Vec<i32>)
    ensures
        r@ == concursos_recentes_spec(ultimo, quantidade),
{
    let mut r: Vec<i32> = Vec::new();
    if quantidade <= 0 || ultimo <= 0 {
        proof {
            assert(r@ =~= concursos_recentes_spec(ultimo, quantidade));
        }
        return r;
    }
    let n: i32 = if quantidade < ultimo {
        quantidade
    } else {
        ultimo
    };
    let mut k: i32 = 0;
    while k < n
        invariant
            0 <= k <= n <= ultimo,
            n == concursos_recentes_spec(ultimo, quantidade).len(),
            r@ == concursos_recentes_spec(ultimo, quantidade).subrange(0, k as int),
        decreases n - k,
    {
        r.push(ultimo - k);
        proof {
            assert(r@ =~= concursos_recentes_spec(ultimo, quantidade).subrange(0, k + 1));
        }
        k = k + 1;
    }
    proof {
        assert(r@ =~= concursos_recentes_spec(ultimo, quantidade));
    }
    r
}

} // verus!
