//! The word store: one fixed, embedded word list per supported language.
//!
//! `corpus` is the mathematical model of each list, a sequence of words
//! where a word is a sequence of characters. `all_words` builds the same
//! list as an executable vector, pinned to the model element by element.

use vstd::prelude::*;

use crate::Lang;

verus! {

/// The views of a sequence of string slices: each word as its character
/// sequence.
pub open spec fn views(ws: Seq<&str>) -> Seq<Seq<char>> {
    ws.map_values(|w: &str| w@)
}

/// The full word list for `lang`, in its fixed order.
pub open spec fn corpus(lang: Lang) -> Seq<Seq<char>> {
    match lang {
        Lang::De => seq![
            "apfel"@, "baum"@, "blume"@, "haus"@, "hund"@,
            "katze"@, "sonne"@, "wald"@, "wasser"@, "zug"@,
        ],
        Lang::En => seq![
            "apple"@, "banana"@, "cherry"@, "dog"@, "eagle"@, "forest"@,
            "grape"@, "house"@, "island"@, "jungle"@, "kite"@, "lemon"@,
        ],
        Lang::Es => seq![
            "agua"@, "casa"@, "gato"@, "luna"@, "manzana"@,
            "perro"@, "sol"@, "tierra"@, "uva"@, "verde"@,
        ],
        Lang::Fr => seq![
            "arbre"@, "chat"@, "chien"@, "eau"@, "fleur"@,
            "lune"@, "maison"@, "pomme"@, "soleil"@, "vache"@,
        ],
        Lang::Zh => seq![
            "山"@, "水"@, "天"@, "人"@, "木"@,
            "火"@, "学校"@, "朋友"@, "苹果"@, "天空"@,
        ],
    }
}

/// Every supported language has a non-empty corpus, and every word in it
/// is non-empty.
pub proof fn lemma_corpus_wf(lang: Lang)
    ensures
        corpus(lang).len() > 0,
        forall|i: int| 0 <= i < corpus(lang).len() ==> (#[trigger] corpus(lang)[i]).len() >= 1,
{
    match lang {
        Lang::De => {
            reveal_strlit("apfel");
            reveal_strlit("baum");
            reveal_strlit("blume");
            reveal_strlit("haus");
            reveal_strlit("hund");
            reveal_strlit("katze");
            reveal_strlit("sonne");
            reveal_strlit("wald");
            reveal_strlit("wasser");
            reveal_strlit("zug");
        },
        Lang::En => {
            reveal_strlit("apple");
            reveal_strlit("banana");
            reveal_strlit("cherry");
            reveal_strlit("dog");
            reveal_strlit("eagle");
            reveal_strlit("forest");
            reveal_strlit("grape");
            reveal_strlit("house");
            reveal_strlit("island");
            reveal_strlit("jungle");
            reveal_strlit("kite");
            reveal_strlit("lemon");
        },
        Lang::Es => {
            reveal_strlit("agua");
            reveal_strlit("casa");
            reveal_strlit("gato");
            reveal_strlit("luna");
            reveal_strlit("manzana");
            reveal_strlit("perro");
            reveal_strlit("sol");
            reveal_strlit("tierra");
            reveal_strlit("uva");
            reveal_strlit("verde");
        },
        Lang::Fr => {
            reveal_strlit("arbre");
            reveal_strlit("chat");
            reveal_strlit("chien");
            reveal_strlit("eau");
            reveal_strlit("fleur");
            reveal_strlit("lune");
            reveal_strlit("maison");
            reveal_strlit("pomme");
            reveal_strlit("soleil");
            reveal_strlit("vache");
        },
        Lang::Zh => {
            reveal_strlit("山");
            reveal_strlit("水");
            reveal_strlit("天");
            reveal_strlit("人");
            reveal_strlit("木");
            reveal_strlit("火");
            reveal_strlit("学校");
            reveal_strlit("朋友");
            reveal_strlit("苹果");
            reveal_strlit("天空");
        },
    }
}

/// The complete word list for `lang` as a vector, in the corpus order.
pub fn all_words(lang: Lang) -> (r: Vec<&'static str>)
    ensures
        views(r@) == corpus(lang),
{
    let mut v: Vec<&'static str> = Vec::new();
    match lang {
        Lang::De => {
            v.push("apfel");
            v.push("baum");
            v.push("blume");
            v.push("haus");
            v.push("hund");
            v.push("katze");
            v.push("sonne");
            v.push("wald");
            v.push("wasser");
            v.push("zug");
        },
        Lang::En => {
            v.push("apple");
            v.push("banana");
            v.push("cherry");
            v.push("dog");
            v.push("eagle");
            v.push("forest");
            v.push("grape");
            v.push("house");
            v.push("island");
            v.push("jungle");
            v.push("kite");
            v.push("lemon");
        },
        Lang::Es => {
            v.push("agua");
            v.push("casa");
            v.push("gato");
            v.push("luna");
            v.push("manzana");
            v.push("perro");
            v.push("sol");
            v.push("tierra");
            v.push("uva");
            v.push("verde");
        },
        Lang::Fr => {
            v.push("arbre");
            v.push("chat");
            v.push("chien");
            v.push("eau");
            v.push("fleur");
            v.push("lune");
            v.push("maison");
            v.push("pomme");
            v.push("soleil");
            v.push("vache");
        },
        Lang::Zh => {
            v.push("山");
            v.push("水");
            v.push("天");
            v.push("人");
            v.push("木");
            v.push("火");
            v.push("学校");
            v.push("朋友");
            v.push("苹果");
            v.push("天空");
        },
    }
    proof {
        assert(views(v@) =~= corpus(lang));
    }
    v
}

} // verus!
