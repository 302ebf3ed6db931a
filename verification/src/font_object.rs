//! Font objects: script objects that stand for a font of a movie's library.

use vstd::prelude::*;
use crate::class::{Class, Error};

verus! {

/// Handle of a font.
#[derive(Clone, Copy, Debug, PartialEq, Eq, Structural)]
pub struct Font {
    pub id: u64,
}

/// What a movie's library holds under a character id.
#[derive(Clone, Copy, Debug, PartialEq, Eq, Structural)]
pub enum Character {
    Font(Font),
    Other,
}

/// The characters of one movie; of two entries with the same id the earlier
/// one counts.
pub struct MovieLibrary {
    pub characters: Vec<(u16, Character)>,
}

/// A class bound to the symbol of a movie.
pub struct ClassSymbol {
    pub class: Class,
    pub movie: usize,
    pub id: u16,
}

/// The class bindings of all movies and, by movie, the movie's library
/// where it has one. Of two bindings of the same class the earlier one
/// counts.
pub struct Library {
    pub class_symbols: Vec<ClassSymbol>,
    pub movies: Vec<Option<MovieLibrary>>,
}

/// The part that every script object has: the class it is an instance of.
#[derive(Debug, PartialEq, Eq)]
pub struct ScriptObjectData {
    pub class: Class,
}

/// The state of a font object.
#[derive(Debug, PartialEq, Eq)]
pub struct FontObjectData {
    /// Base script object
    pub base: ScriptObjectData,
    pub font: Option<Font>,
}

/// A script object that may stand for a font.
#[derive(Debug, PartialEq, Eq)]
pub struct FontObject(pub Box<FontObjectData>);

/// The least index at or after `from` of a binding of `class`, or the
/// number of bindings.
pub open spec fn symbol_position(symbols: Seq<ClassSymbol>, class: Class, from: int) -> int
    decreases symbols.len() - from,
{
    if from < 0 || from >= symbols.len() {
        symbols.len() as int
    } else if symbols[from].class == class {
        from
    } else {
        symbol_position(symbols, class, from + 1)
    }
}

/// The least index at or after `from` of a character with the id `id`, or
/// the number of characters.
pub open spec fn character_position(characters: Seq<(u16, Character)>, id: u16, from: int) -> int
    decreases characters.len() - from,
{
    if from < 0 || from >= characters.len() {
        characters.len() as int
    } else if characters[from].0 == id {
        from
    } else {
        character_position(characters, id, from + 1)
    }
}

impl MovieLibrary {
    /// The character with the id `id`, if any.
    pub open spec fn spec_character_by_id(&self, id: u16) -> Option<Character> {
        let i = character_position(self.characters@, id, 0);
        if i < self.characters@.len() {
            Some(self.characters@[i].1)
        } else {
            None
        }
    }

    pub fn character_by_id(&self, id: u16) -> (r: Option<Character>)
        ensures
            r == self.spec_character_by_id(id),
    {
        let mut i: usize = 0;
        while i < self.characters.len()
            invariant
                i <= self.characters@.len(),
                character_position(self.characters@, id, 0) == character_position(
                    self.characters@,
                    id,
                    i as int,
                ),
            decreases self.characters@.len() - i,
        {
            if self.characters[i].0 == id {
                return Some(self.characters[i].1);
            }
            i += 1;
        }
        None
    }
}

impl Library {
    /// The movie and character id that `class` is bound to, if any.
    pub open spec fn spec_class_symbol(&self, class: Class) -> Option<(usize, u16)> {
        let i = symbol_position(self.class_symbols@, class, 0);
        if i < self.class_symbols@.len() {
            Some((self.class_symbols@[i].movie, self.class_symbols@[i].id))
        } else {
            None
        }
    }

    /// The font that the symbol of `class` names: the class is bound to a
    /// symbol, the symbol's movie has a library, and the library holds a
    /// font under the symbol's id.
    pub open spec fn font_of_class(&self, class: Class) -> Option<Font> {
        match self.spec_class_symbol(class) {
            Some((movie, id)) => if movie < self.movies@.len() && self.movies@[movie as int] is Some {
                match self.movies@[movie as int].unwrap().spec_character_by_id(id) {
                    Some(Character::Font(font)) => Some(font),
                    _ => None,
                }
            } else {
                None
            },
            None => None,
        }
    }

    pub fn class_symbol(&self, class: &Class) -> (r: Option<(usize, u16)>)
        ensures
            r == self.spec_class_symbol(*class),
    {
        let mut i: usize = 0;
        while i < self.class_symbols.len()
            invariant
                i <= self.class_symbols@.len(),
                symbol_position(self.class_symbols@, *class, 0) == symbol_position(
                    self.class_symbols@,
                    *class,
                    i as int,
                ),
            decreases self.class_symbols@.len() - i,
        {
            if self.class_symbols[i].class.same(class) {
                return Some((self.class_symbols[i].movie, self.class_symbols[i].id));
            }
            i += 1;
        }
        None
    }

    /// The library of `movie`, if it has one.
    pub fn library_for_movie(&self, movie: usize) -> (r: Option<&MovieLibrary>)
        ensures
            match r {
                Some(lib) => movie < self.movies@.len() && self.movies@[movie as int] == Some(*lib),
                None => !(movie < self.movies@.len() && self.movies@[movie as int] is Some),
            },
    {
        if movie < self.movies.len() {
            self.movies[movie].as_ref()
        } else {
            None
        }
    }
}

/// Allocates the instance of a font class: an object of `class` holding the
/// font that the symbol of the class names, or no font where the class has
/// no symbol, the symbol's movie no library, or the library no font under
/// that id.
pub fn font_allocator(class: Class, library: &Library) -> (r: Result<FontObject, Error>)
    ensures
        r matches Ok(object) && *object.0 == (FontObjectData {
            base: ScriptObjectData { class },
            font: library.font_of_class(class),
        }),
{
    let font = if let Some((movie, id)) = library.class_symbol(&class) {
        if let Some(lib) = library.library_for_movie(movie) {
            if let Some(Character::Font(font)) = lib.character_by_id(id) {
                Some(font)
            } else {
                None
            }
        } else {
            None
        }
    } else {
        None
    };
    let base = ScriptObjectData { class };
    Ok(FontObject(Box::new(FontObjectData { base, font })))
}

impl FontObject {
    /// An object of `class` that stands for `font`.
    pub fn for_font(class: Class, font: Font) -> (object: FontObject)
        ensures
            *object.0 == (FontObjectData { base: ScriptObjectData { class }, font: Some(font) }),
    {
        let base = ScriptObjectData { class };
        FontObject(Box::new(FontObjectData { base, font: Some(font) }))
    }

    /// The font this object stands for, if any.
    pub fn font(&self) -> (f: Option<Font>)
        ensures
            f == self.0.font,
    {
        self.0.font
    }

    /// The base script object.
    pub fn gc_base(&self) -> (base: &ScriptObjectData)
        ensures
            *base == self.0.base,
    {
        &self.0.base
    }
}

} // verus!
