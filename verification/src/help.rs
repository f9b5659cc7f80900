use vstd::prelude::*;

use crate::text::{chars_eq, chars_of, Chars};

verus! {

/// A group of keyboard shortcuts on the shortcut sheet, in the left or right column.
#[derive(Debug)]
pub struct HelpSection {
    pub title: &'static str,
    /// Each shortcut with what it does.
    pub items: Vec<(&'static str, &'static str)>,
    pub left: bool,
}

/// The model of a [`HelpSection`].
pub struct HelpSectionView {
    pub title: Chars,
    pub items: Seq<(Chars, Chars)>,
    pub left: bool,
}

/// The models of shortcut pairs.
pub open spec fn item_views(items: Seq<(&str, &str)>) -> Seq<(Chars, Chars)> {
    items.map_values(|p: (&str, &str)| (p.0@, p.1@))
}

/// The models of a list of sections.
pub open spec fn help_views(v: Seq<HelpSection>) -> Seq<HelpSectionView> {
    v.map_values(|s: HelpSection| HelpSectionView { title: s.title@, items: item_views(s.items@), left: s.left })
}

/// The title of the shortcut sheet.
pub open spec fn help_heading(lang: Chars) -> Chars {
    if lang == "ES"@ {
        "Atajos de Teclado"@
    } else {
        "Keyboard Shortcuts"@
    }
}

/// The shortcut sheet: in Spanish for `ES`, in English otherwise.
pub open spec fn help_table(lang: Chars) -> Seq<HelpSectionView> {
    if lang == "ES"@ {
        seq![
            HelpSectionView { title: "Global"@, items: item_views(seq![("Esc", "Salir de CastIt"), ("Shift + Del", "Limpiar barra de búsqueda"), ("..", "Ir a Ajustes"), ("??", "Ver atajos de teclado (esta pantalla)")]), left: true },
            HelpSectionView { title: "Launcher / Apps"@, items: item_views(seq![("↑ / ↓", "Navegar resultados"), ("Enter", "Lanzar aplicación seleccionada"), ("Ctrl + D", "Añadir/quitar app favorita (Dashboard)")]), left: true },
            HelpSectionView { title: "Comandos ('>')"@, items: item_views(seq![("Enter", "Ejecutar comando en segundo plano"), ("Ctrl + Enter", "Ejecutar comando en terminal externa")]), left: true },
            HelpSectionView { title: "Calculadora"@, items: item_views(seq![("Enter", "Copiar resultado al portapapeles")]), left: true },
            HelpSectionView { title: "Archivos ('/', '~')"@, items: item_views(seq![("↑ / ↓", "Navegar archivos / carpetas"), ("→", "Autocompletar / Entrar en carpeta"), ("Shift + ←", "Subir al directorio superior"), ("Enter", "Abrir archivo / Carpeta nativa"), ("Ctrl + Espacio", "Previsualizar archivo (Quick Look)")]), left: false },
            HelpSectionView { title: "Búsqueda Global ('f ')"@, items: item_views(seq![("f <archivo>", "Buscar archivos recursivamente en ~")]), left: false },
            HelpSectionView { title: "Buscador Web ('?')"@, items: item_views(seq![("? <texto>", "Buscar consulta en Google")]), left: false },
            HelpSectionView { title: "Previsualización de Archivo"@, items: item_views(seq![("Shift + ↑ / ↓", "Deslizar (scroll) contenido de archivo"), ("↑ / ↓", "Cambiar previsualización al anterior/sig"), ("Ctrl + Espacio", "Cerrar previsualización")]), left: false },
            HelpSectionView { title: "Ajustes ('..')"@, items: item_views(seq![("↑ / ↓", "Navegar entre ajustes"), ("← / →", "Cambiar el valor seleccionado")]), left: true },
        ]
    } else {
        seq![
            HelpSectionView { title: "Global"@, items: item_views(seq![("Esc", "Exit CastIt"), ("Shift + Del", "Clear search bar input"), ("..", "Go to Settings"), ("??", "View keyboard shortcuts (this screen)")]), left: true },
            HelpSectionView { title: "Launcher / Apps"@, items: item_views(seq![("↑ / ↓", "Navigate launcher results"), ("Enter", "Launch selected application"), ("Ctrl + D", "Toggle app favorite (Dashboard)")]), left: true },
            HelpSectionView { title: "Commands ('>')"@, items: item_views(seq![("Enter", "Run command in background"), ("Ctrl + Enter", "Run command in external terminal")]), left: true },
            HelpSectionView { title: "Calculator"@, items: item_views(seq![("Enter", "Copy result to clipboard")]), left: true },
            HelpSectionView { title: "Files ('/', '~')"@, items: item_views(seq![("↑ / ↓", "Navigate file list"), ("→", "Autocomplete / Enter folder"), ("Shift + ←", "Navigate to parent folder"), ("Enter", "Open file / Native folder manager"), ("Ctrl + Space", "Preview file (Quick Look)")]), left: false },
            HelpSectionView { title: "Global Search ('f ')"@, items: item_views(seq![("f <file>", "Search files recursively in ~")]), left: false },
            HelpSectionView { title: "Web Search ('?')"@, items: item_views(seq![("? <query>", "Search query on Google")]), left: false },
            HelpSectionView { title: "File Preview"@, items: item_views(seq![("Shift + ↑ / ↓", "Scroll through file content preview"), ("↑ / ↓", "Switch preview to previous/next file"), ("Ctrl + Space", "Close file preview")]), left: false },
            HelpSectionView { title: "Settings ('..')"@, items: item_views(seq![("↑ / ↓", "Navigate settings items"), ("← / →", "Change selected value")]), left: true },
        ]
    }
}

/// Gives the title of the shortcut sheet.
pub fn help_title(lang: &str) -> (r: &'static str)
    ensures
        r@ == help_heading(lang@),
{
    if chars_eq(&chars_of(lang), &chars_of("ES")) {
        "Atajos de Teclado"
    } else {
        "Keyboard Shortcuts"
    }
}

/// Gives the sections of the shortcut sheet for a language.
pub fn help_sections(lang: &str) -> (r: Vec<HelpSection>)
    ensures
        help_views(r@) == help_table(lang@),
{
    let mut out: Vec<HelpSection> = Vec::new();
    if chars_eq(&chars_of(lang), &chars_of("ES")) {
        {
            let mut v: Vec<(&'static str, &'static str)> = Vec::new();
            v.push(("Esc", "Salir de CastIt"));
            v.push(("Shift + Del", "Limpiar barra de búsqueda"));
            v.push(("..", "Ir a Ajustes"));
            v.push(("??", "Ver atajos de teclado (esta pantalla)"));
            assert(v@ =~= seq![("Esc", "Salir de CastIt"), ("Shift + Del", "Limpiar barra de búsqueda"), ("..", "Ir a Ajustes"), ("??", "Ver atajos de teclado (esta pantalla)")]);
            out.push(HelpSection { title: "Global", items: v, left: true });
        }
        {
            let mut v: Vec<(&'static str, &'static str)> = Vec::new();
            v.push(("↑ / ↓", "Navegar resultados"));
            v.push(("Enter", "Lanzar aplicación seleccionada"));
            v.push(("Ctrl + D", "Añadir/quitar app favorita (Dashboard)"));
            assert(v@ =~= seq![("↑ / ↓", "Navegar resultados"), ("Enter", "Lanzar aplicación seleccionada"), ("Ctrl + D", "Añadir/quitar app favorita (Dashboard)")]);
            out.push(HelpSection { title: "Launcher / Apps", items: v, left: true });
        }
        {
            let mut v: Vec<(&'static str, &'static str)> = Vec::new();
            v.push(("Enter", "Ejecutar comando en segundo plano"));
            v.push(("Ctrl + Enter", "Ejecutar comando en terminal externa"));
            assert(v@ =~= seq![("Enter", "Ejecutar comando en segundo plano"), ("Ctrl + Enter", "Ejecutar comando en terminal externa")]);
            out.push(HelpSection { title: "Comandos ('>')", items: v, left: true });
        }
        {
            let mut v: Vec<(&'static str, &'static str)> = Vec::new();
            v.push(("Enter", "Copiar resultado al portapapeles"));
            assert(v@ =~= seq![("Enter", "Copiar resultado al portapapeles")]);
            out.push(HelpSection { title: "Calculadora", items: v, left: true });
        }
        {
            let mut v: Vec<(&'static str, &'static str)> = Vec::new();
            v.push(("↑ / ↓", "Navegar archivos / carpetas"));
            v.push(("→", "Autocompletar / Entrar en carpeta"));
            v.push(("Shift + ←", "Subir al directorio superior"));
            v.push(("Enter", "Abrir archivo / Carpeta nativa"));
            v.push(("Ctrl + Espacio", "Previsualizar archivo (Quick Look)"));
            assert(v@ =~= seq![("↑ / ↓", "Navegar archivos / carpetas"), ("→", "Autocompletar / Entrar en carpeta"), ("Shift + ←", "Subir al directorio superior"), ("Enter", "Abrir archivo / Carpeta nativa"), ("Ctrl + Espacio", "Previsualizar archivo (Quick Look)")]);
            out.push(HelpSection { title: "Archivos ('/', '~')", items: v, left: false });
        }
        {
            let mut v: Vec<(&'static str, &'static str)> = Vec::new();
            v.push(("f <archivo>", "Buscar archivos recursivamente en ~"));
            assert(v@ =~= seq![("f <archivo>", "Buscar archivos recursivamente en ~")]);
            out.push(HelpSection { title: "Búsqueda Global ('f ')", items: v, left: false });
        }
        {
            let mut v: Vec<(&'static str, &'static str)> = Vec::new();
            v.push(("? <texto>", "Buscar consulta en Google"));
            assert(v@ =~= seq![("? <texto>", "Buscar consulta en Google")]);
            out.push(HelpSection { title: "Buscador Web ('?')", items: v, left: false });
        }
        {
            let mut v: Vec<(&'static str, &'static str)> = Vec::new();
            v.push(("Shift + ↑ / ↓", "Deslizar (scroll) contenido de archivo"));
            v.push(("↑ / ↓", "Cambiar previsualización al anterior/sig"));
            v.push(("Ctrl + Espacio", "Cerrar previsualización"));
            assert(v@ =~= seq![("Shift + ↑ / ↓", "Deslizar (scroll) contenido de archivo"), ("↑ / ↓", "Cambiar previsualización al anterior/sig"), ("Ctrl + Espacio", "Cerrar previsualización")]);
            out.push(HelpSection { title: "Previsualización de Archivo", items: v, left: false });
        }
        {
            let mut v: Vec<(&'static str, &'static str)> = Vec::new();
            v.push(("↑ / ↓", "Navegar entre ajustes"));
            v.push(("← / →", "Cambiar el valor seleccionado"));
            assert(v@ =~= seq![("↑ / ↓", "Navegar entre ajustes"), ("← / →", "Cambiar el valor seleccionado")]);
            out.push(HelpSection { title: "Ajustes ('..')", items: v, left: true });
        }
    } else {
        {
            let mut v: Vec<(&'static str, &'static str)> = Vec::new();
            v.push(("Esc", "Exit CastIt"));
            v.push(("Shift + Del", "Clear search bar input"));
            v.push(("..", "Go to Settings"));
            v.push(("??", "View keyboard shortcuts (this screen)"));
            assert(v@ =~= seq![("Esc", "Exit CastIt"), ("Shift + Del", "Clear search bar input"), ("..", "Go to Settings"), ("??", "View keyboard shortcuts (this screen)")]);
            out.push(HelpSection { title: "Global", items: v, left: true });
        }
        {
            let mut v: Vec<(&'static str, &'static str)> = Vec::new();
            v.push(("↑ / ↓", "Navigate launcher results"));
            v.push(("Enter", "Launch selected application"));
            v.push(("Ctrl + D", "Toggle app favorite (Dashboard)"));
            assert(v@ =~= seq![("↑ / ↓", "Navigate launcher results"), ("Enter", "Launch selected application"), ("Ctrl + D", "Toggle app favorite (Dashboard)")]);
            out.push(HelpSection { title: "Launcher / Apps", items: v, left: true });
        }
        {
            let mut v: Vec<(&'static str, &'static str)> = Vec::new();
            v.push(("Enter", "Run command in background"));
            v.push(("Ctrl + Enter", "Run command in external terminal"));
            assert(v@ =~= seq![("Enter", "Run command in background"), ("Ctrl + Enter", "Run command in external terminal")]);
            out.push(HelpSection { title: "Commands ('>')", items: v, left: true });
        }
        {
            let mut v: Vec<(&'static str, &'static str)> = Vec::new();
            v.push(("Enter", "Copy result to clipboard"));
            assert(v@ =~= seq![("Enter", "Copy result to clipboard")]);
            out.push(HelpSection { title: "Calculator", items: v, left: true });
        }
        {
            let mut v: Vec<(&'static str, &'static str)> = Vec::new();
            v.push(("↑ / ↓", "Navigate file list"));
            v.push(("→", "Autocomplete / Enter folder"));
            v.push(("Shift + ←", "Navigate to parent folder"));
            v.push(("Enter", "Open file / Native folder manager"));
            v.push(("Ctrl + Space", "Preview file (Quick Look)"));
            assert(v@ =~= seq![("↑ / ↓", "Navigate file list"), ("→", "Autocomplete / Enter folder"), ("Shift + ←", "Navigate to parent folder"), ("Enter", "Open file / Native folder manager"), ("Ctrl + Space", "Preview file (Quick Look)")]);
            out.push(HelpSection { title: "Files ('/', '~')", items: v, left: false });
        }
        {
            let mut v: Vec<(&'static str, &'static str)> = Vec::new();
            v.push(("f <file>", "Search files recursively in ~"));
            assert(v@ =~= seq![("f <file>", "Search files recursively in ~")]);
            out.push(HelpSection { title: "Global Search ('f ')", items: v, left: false });
        }
        {
            let mut v: Vec<(&'static str, &'static str)> = Vec::new();
            v.push(("? <query>", "Search query on Google"));
            assert(v@ =~= seq![("? <query>", "Search query on Google")]);
            out.push(HelpSection { title: "Web Search ('?')", items: v, left: false });
        }
        {
            let mut v: Vec<(&'static str, &'static str)> = Vec::new();
            v.push(("Shift + ↑ / ↓", "Scroll through file content preview"));
            v.push(("↑ / ↓", "Switch preview to previous/next file"));
            v.push(("Ctrl + Space", "Close file preview"));
            assert(v@ =~= seq![("Shift + ↑ / ↓", "Scroll through file content preview"), ("↑ / ↓", "Switch preview to previous/next file"), ("Ctrl + Space", "Close file preview")]);
            out.push(HelpSection { title: "File Preview", items: v, left: false });
        }
        {
            let mut v: Vec<(&'static str, &'static str)> = Vec::new();
            v.push(("↑ / ↓", "Navigate settings items"));
            v.push(("← / →", "Change selected value"));
            assert(v@ =~= seq![("↑ / ↓", "Navigate settings items"), ("← / →", "Change selected value")]);
            out.push(HelpSection { title: "Settings ('..')", items: v, left: true });
        }
    }
    assert(help_views(out@) =~= help_table(lang@));
    out
}

} // verus!
