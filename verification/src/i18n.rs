//! Interface texts in Portuguese, English and Spanish. Keys are an enum, so
//! a missing translation is a compile error; the proof below shows that no
//! text is empty.
use vstd::prelude::*;

verus! {

#[derive(Clone, Copy, PartialEq, Eq, Debug)]
pub enum Lang {
    Pt,
    En,
    Es,
}

/// The name of each language in the language itself.
pub open spec fn lang_label_spec(lang: Lang) -> Seq<char> {
    match lang {
        Lang::Pt => "Português"@,
        Lang::En => "English"@,
        Lang::Es => "Español"@,
    }
}

impl Lang {
    /// Name in the selector: always the endonym.
    pub fn label(self) -> (r: &'static str)
        ensures
            r@ == lang_label_spec(self),
    {
        match self {
            Lang::Pt => "Português",
            Lang::En => "English",
            Lang::Es => "Español",
        }
    }

    /// Every language, in selector order.
    pub fn all() -> (r: [Lang; 3])
        ensures
            r@ == seq![Lang::Pt, Lang::En, Lang::Es],
    {
        let r = [Lang::Pt, Lang::En, Lang::Es];
        assert(r@ =~= seq![Lang::Pt, Lang::En, Lang::Es]);
        r
    }
}

#[derive(Clone, Copy, PartialEq, Eq, Debug)]
pub enum Key {
    Language,
    Theme,
    Error,
    Search,
    Copy,
    Cpu,
    Memory,
    Cores,
    Uptime,
    Disks,
    Processes,
    Filter,
    Name,
    End,
    KillTitle,
    KillAsk,
    Confirm,
    Cancel,
    History,
    Clear,
    ExprHint,
    NoHistory,
    ShowHide,
    Quit,
    Pin,
    Unpin,
    Delete,
    Empty,
    Vault,
    MasterPassword,
    Unlock,
    NewVault,
    WrongPassword,
    Add,
    Save,
    Items,
    Username,
    Password,
    Lock,
    Totp,
    QuickUnlock,
    ForgetKey,
    Edit,
    SecondsShort,
    TrashHint,
    Install,
    Update,
    Open,
    StartMenu,
    Desktop,
    Installed,
    Available,
    Downloading,
    Refresh,
    UpToDate,
    NotInstalled,
    Uninstall,
    Clean,
    OpenFolder,
    UninstallAsk,
    Running,
    Restart,
    Settings,
    Hotkey,
    Define,
    Autostart,
    PressKeys,
    CloseToTray,
}

/// The text of each key in each language.
pub open spec fn text_spec(lang: Lang, key: Key) -> Seq<char> {
    match key {
        Key::Language => match lang {
            Lang::Pt => "Idioma"@,
            Lang::En => "Language"@,
            Lang::Es => "Idioma"@,
        },
        Key::Theme => match lang {
            Lang::Pt => "Tema"@,
            Lang::En => "Theme"@,
            Lang::Es => "Tema"@,
        },
        Key::Error => match lang {
            Lang::Pt => "Erro"@,
            Lang::En => "Error"@,
            Lang::Es => "Error"@,
        },
        Key::Search => match lang {
            Lang::Pt => "Buscar…"@,
            Lang::En => "Search…"@,
            Lang::Es => "Buscar…"@,
        },
        Key::Copy => match lang {
            Lang::Pt => "Copiar"@,
            Lang::En => "Copy"@,
            Lang::Es => "Copiar"@,
        },
        Key::Cpu => "CPU"@,
        Key::Memory => match lang {
            Lang::Pt => "Memória"@,
            Lang::En => "Memory"@,
            Lang::Es => "Memoria"@,
        },
        Key::Cores => match lang {
            Lang::Pt => "Núcleos"@,
            Lang::En => "Cores"@,
            Lang::Es => "Núcleos"@,
        },
        Key::Uptime => match lang {
            Lang::Pt => "Ligado há"@,
            Lang::En => "Uptime"@,
            Lang::Es => "Tiempo encendido"@,
        },
        Key::Disks => match lang {
            Lang::Pt => "Discos"@,
            Lang::En => "Disks"@,
            Lang::Es => "Discos"@,
        },
        Key::Processes => match lang {
            Lang::Pt => "Processos"@,
            Lang::En => "Processes"@,
            Lang::Es => "Procesos"@,
        },
        Key::Filter => match lang {
            Lang::Pt => "Filtrar"@,
            Lang::En => "Filter"@,
            Lang::Es => "Filtrar"@,
        },
        Key::Name => match lang {
            Lang::Pt => "Nome"@,
            Lang::En => "Name"@,
            Lang::Es => "Nombre"@,
        },
        Key::End => match lang {
            Lang::Pt => "Encerrar"@,
            Lang::En => "End task"@,
            Lang::Es => "Finalizar"@,
        },
        Key::KillTitle => match lang {
            Lang::Pt => "Encerrar processo?"@,
            Lang::En => "End process?"@,
            Lang::Es => "¿Finalizar proceso?"@,
        },
        Key::KillAsk => match lang {
            Lang::Pt => "O trabalho não salvo deste app se perde."@,
            Lang::En => "Unsaved work in that app is lost."@,
            Lang::Es => "El trabajo no guardado de esa app se pierde."@,
        },
        Key::Confirm => match lang {
            Lang::Pt => "Confirmar"@,
            Lang::En => "Confirm"@,
            Lang::Es => "Confirmar"@,
        },
        Key::Cancel => match lang {
            Lang::Pt => "Cancelar"@,
            Lang::En => "Cancel"@,
            Lang::Es => "Cancelar"@,
        },
        Key::History => match lang {
            Lang::Pt => "Histórico"@,
            Lang::En => "History"@,
            Lang::Es => "Historial"@,
        },
        Key::Clear => match lang {
            Lang::Pt => "Limpar"@,
            Lang::En => "Clear"@,
            Lang::Es => "Borrar"@,
        },
        Key::ExprHint => match lang {
            Lang::Pt => "expresse, ex.: 2*(3+4)^2"@,
            Lang::En => "type an expression, e.g. 2*(3+4)^2"@,
            Lang::Es => "escribe una expresión, p. ej. 2*(3+4)^2"@,
        },
        Key::NoHistory => match lang {
            Lang::Pt => "sem contas ainda"@,
            Lang::En => "no calculations yet"@,
            Lang::Es => "sin cálculos aún"@,
        },
        Key::ShowHide => match lang {
            Lang::Pt => "Mostrar/Ocultar"@,
            Lang::En => "Show/Hide"@,
            Lang::Es => "Mostrar/Ocultar"@,
        },
        Key::Quit => match lang {
            Lang::Pt => "Sair"@,
            Lang::En => "Quit"@,
            Lang::Es => "Salir"@,
        },
        Key::Pin => match lang {
            Lang::Pt => "Fixar"@,
            Lang::En => "Pin"@,
            Lang::Es => "Fijar"@,
        },
        Key::Unpin => match lang {
            Lang::Pt => "Desafixar"@,
            Lang::En => "Unpin"@,
            Lang::Es => "Desfijar"@,
        },
        Key::Delete => match lang {
            Lang::Pt => "Excluir"@,
            Lang::En => "Delete"@,
            Lang::Es => "Eliminar"@,
        },
        Key::Empty => match lang {
            Lang::Pt => "vazio — copie algo"@,
            Lang::En => "empty — copy something"@,
            Lang::Es => "vacío — copia algo"@,
        },
        Key::Vault => match lang {
            Lang::Pt => "Cofre"@,
            Lang::En => "Vault"@,
            Lang::Es => "Bóveda"@,
        },
        Key::MasterPassword => match lang {
            Lang::Pt => "Senha mestra"@,
            Lang::En => "Master password"@,
            Lang::Es => "Contraseña maestra"@,
        },
        Key::Unlock => match lang {
            Lang::Pt => "Destrancar"@,
            Lang::En => "Unlock"@,
            Lang::Es => "Desbloquear"@,
        },
        Key::NewVault => match lang {
            Lang::Pt => "Novo cofre"@,
            Lang::En => "New vault"@,
            Lang::Es => "Nueva bóveda"@,
        },
        Key::WrongPassword => match lang {
            Lang::Pt => "senha incorreta ou arquivo corrompido/adulterado"@,
            Lang::En => "wrong password or corrupted/tampered file"@,
            Lang::Es => "contraseña incorrecta o archivo corrupto/adulterado"@,
        },
        Key::Add => match lang {
            Lang::Pt => "Adicionar"@,
            Lang::En => "Add"@,
            Lang::Es => "Añadir"@,
        },
        Key::Save => match lang {
            Lang::Pt => "Salvar"@,
            Lang::En => "Save"@,
            Lang::Es => "Guardar"@,
        },
        Key::Items => match lang {
            Lang::Pt => "Itens"@,
            Lang::En => "Items"@,
            Lang::Es => "Elementos"@,
        },
        Key::Username => match lang {
            Lang::Pt => "Usuário"@,
            Lang::En => "Username"@,
            Lang::Es => "Usuario"@,
        },
        Key::Password => match lang {
            Lang::Pt => "Senha"@,
            Lang::En => "Password"@,
            Lang::Es => "Contraseña"@,
        },
        Key::Lock => match lang {
            Lang::Pt => "Trancar"@,
            Lang::En => "Lock"@,
            Lang::Es => "Bloquear"@,
        },
        Key::Totp => "TOTP"@,
        Key::QuickUnlock => match lang {
            Lang::Pt => "Desbloqueio rápido neste PC"@,
            Lang::En => "Quick unlock on this PC"@,
            Lang::Es => "Desbloqueo rápido en este PC"@,
        },
        Key::ForgetKey => match lang {
            Lang::Pt => "Esquecer chave"@,
            Lang::En => "Forget key"@,
            Lang::Es => "Olvidar clave"@,
        },
        Key::Edit => match lang {
            Lang::Pt => "Editar"@,
            Lang::En => "Edit"@,
            Lang::Es => "Editar"@,
        },
        Key::SecondsShort => "s"@,
        Key::TrashHint => match lang {
            Lang::Pt => "O item vai pra lixeira — recuperável no LocalKeys oficial."@,
            Lang::En => "The item goes to trash — recoverable in the official LocalKeys."@,
            Lang::Es => "El elemento va a la papelera — recuperable en LocalKeys oficial."@,
        },
        Key::Install => match lang {
            Lang::Pt => "Instalar"@,
            Lang::En => "Install"@,
            Lang::Es => "Instalar"@,
        },
        Key::Update => match lang {
            Lang::Pt => "Atualizar"@,
            Lang::En => "Update"@,
            Lang::Es => "Actualizar"@,
        },
        Key::Open => match lang {
            Lang::Pt => "Abrir"@,
            Lang::En => "Open"@,
            Lang::Es => "Abrir"@,
        },
        Key::StartMenu => match lang {
            Lang::Pt => "Menu Iniciar"@,
            Lang::En => "Start menu"@,
            Lang::Es => "Menú Inicio"@,
        },
        Key::Desktop => match lang {
            Lang::Pt => "Área de trabalho"@,
            Lang::En => "Desktop"@,
            Lang::Es => "Escritorio"@,
        },
        Key::Installed => match lang {
            Lang::Pt => "instalado"@,
            Lang::En => "installed"@,
            Lang::Es => "instalado"@,
        },
        Key::Available => match lang {
            Lang::Pt => "disponível"@,
            Lang::En => "available"@,
            Lang::Es => "disponible"@,
        },
        Key::Downloading => match lang {
            Lang::Pt => "baixando"@,
            Lang::En => "downloading"@,
            Lang::Es => "descargando"@,
        },
        Key::Refresh => match lang {
            Lang::Pt => "Atualizar lista"@,
            Lang::En => "Refresh"@,
            Lang::Es => "Actualizar lista"@,
        },
        Key::UpToDate => match lang {
            Lang::Pt => "em dia"@,
            Lang::En => "up to date"@,
            Lang::Es => "al día"@,
        },
        Key::NotInstalled => match lang {
            Lang::Pt => "não instalado"@,
            Lang::En => "not installed"@,
            Lang::Es => "no instalado"@,
        },
        Key::Uninstall => match lang {
            Lang::Pt => "Desinstalar"@,
            Lang::En => "Uninstall"@,
            Lang::Es => "Desinstalar"@,
        },
        Key::Clean => match lang {
            Lang::Pt => "Limpeza"@,
            Lang::En => "Cleanup"@,
            Lang::Es => "Limpieza"@,
        },
        Key::OpenFolder => match lang {
            Lang::Pt => "Abrir pasta"@,
            Lang::En => "Open folder"@,
            Lang::Es => "Abrir carpeta"@,
        },
        Key::UninstallAsk => match lang {
            Lang::Pt => "Desinstalar e remover atalhos?"@,
            Lang::En => "Uninstall and remove shortcuts?"@,
            Lang::Es => "¿Desinstalar y quitar accesos?"@,
        },
        Key::Running => match lang {
            Lang::Pt => "rodando"@,
            Lang::En => "running"@,
            Lang::Es => "ejecutando"@,
        },
        Key::Restart => match lang {
            Lang::Pt => "reinicie o Lab Hub"@,
            Lang::En => "restart Lab Hub"@,
            Lang::Es => "reinicie Lab Hub"@,
        },
        Key::Settings => match lang {
            Lang::Pt => "Configurações"@,
            Lang::En => "Settings"@,
            Lang::Es => "Ajustes"@,
        },
        Key::Hotkey => match lang {
            Lang::Pt => "Atalho global"@,
            Lang::En => "Global hotkey"@,
            Lang::Es => "Atajo global"@,
        },
        Key::Define => match lang {
            Lang::Pt => "Definir…"@,
            Lang::En => "Set…"@,
            Lang::Es => "Definir…"@,
        },
        Key::Autostart => match lang {
            Lang::Pt => "Iniciar com o sistema"@,
            Lang::En => "Start with system"@,
            Lang::Es => "Iniciar con el sistema"@,
        },
        Key::PressKeys => match lang {
            Lang::Pt => "pressione as teclas…"@,
            Lang::En => "press the keys…"@,
            Lang::Es => "pulsa las teclas…"@,
        },
        Key::CloseToTray => match lang {
            Lang::Pt => "Fechar minimiza pra bandeja."@,
            Lang::En => "Closing minimizes to tray."@,
            Lang::Es => "Cerrar minimiza a la bandeja."@,
        },
    }
}

/// The interface text for `key` in `lang`.
pub fn t(lang: Lang, key: Key) -> (r: &'static str)
    ensures
        r@ == text_spec(lang, key),
{
    match key {
        Key::Language => match lang {
            Lang::Pt => "Idioma",
            Lang::En => "Language",
            Lang::Es => "Idioma",
        },
        Key::Theme => match lang {
            Lang::Pt => "Tema",
            Lang::En => "Theme",
            Lang::Es => "Tema",
        },
        Key::Error => match lang {
            Lang::Pt => "Erro",
            Lang::En => "Error",
            Lang::Es => "Error",
        },
        Key::Search => match lang {
            Lang::Pt => "Buscar…",
            Lang::En => "Search…",
            Lang::Es => "Buscar…",
        },
        Key::Copy => match lang {
            Lang::Pt => "Copiar",
            Lang::En => "Copy",
            Lang::Es => "Copiar",
        },
        Key::Cpu => "CPU",
        Key::Memory => match lang {
            Lang::Pt => "Memória",
            Lang::En => "Memory",
            Lang::Es => "Memoria",
        },
        Key::Cores => match lang {
            Lang::Pt => "Núcleos",
            Lang::En => "Cores",
            Lang::Es => "Núcleos",
        },
        Key::Uptime => match lang {
            Lang::Pt => "Ligado há",
            Lang::En => "Uptime",
            Lang::Es => "Tiempo encendido",
        },
        Key::Disks => match lang {
            Lang::Pt => "Discos",
            Lang::En => "Disks",
            Lang::Es => "Discos",
        },
        Key::Processes => match lang {
            Lang::Pt => "Processos",
            Lang::En => "Processes",
            Lang::Es => "Procesos",
        },
        Key::Filter => match lang {
            Lang::Pt => "Filtrar",
            Lang::En => "Filter",
            Lang::Es => "Filtrar",
        },
        Key::Name => match lang {
            Lang::Pt => "Nome",
            Lang::En => "Name",
            Lang::Es => "Nombre",
        },
        Key::End => match lang {
            Lang::Pt => "Encerrar",
            Lang::En => "End task",
            Lang::Es => "Finalizar",
        },
        Key::KillTitle => match lang {
            Lang::Pt => "Encerrar processo?",
            Lang::En => "End process?",
            Lang::Es => "¿Finalizar proceso?",
        },
        Key::KillAsk => match lang {
            Lang::Pt => "O trabalho não salvo deste app se perde.",
            Lang::En => "Unsaved work in that app is lost.",
            Lang::Es => "El trabajo no guardado de esa app se pierde.",
        },
        Key::Confirm => match lang {
            Lang::Pt => "Confirmar",
            Lang::En => "Confirm",
            Lang::Es => "Confirmar",
        },
        Key::Cancel => match lang {
            Lang::Pt => "Cancelar",
            Lang::En => "Cancel",
            Lang::Es => "Cancelar",
        },
        Key::History => match lang {
            Lang::Pt => "Histórico",
            Lang::En => "History",
            Lang::Es => "Historial",
        },
        Key::Clear => match lang {
            Lang::Pt => "Limpar",
            Lang::En => "Clear",
            Lang::Es => "Borrar",
        },
        Key::ExprHint => match lang {
            Lang::Pt => "expresse, ex.: 2*(3+4)^2",
            Lang::En => "type an expression, e.g. 2*(3+4)^2",
            Lang::Es => "escribe una expresión, p. ej. 2*(3+4)^2",
        },
        Key::NoHistory => match lang {
            Lang::Pt => "sem contas ainda",
            Lang::En => "no calculations yet",
            Lang::Es => "sin cálculos aún",
        },
        Key::ShowHide => match lang {
            Lang::Pt => "Mostrar/Ocultar",
            Lang::En => "Show/Hide",
            Lang::Es => "Mostrar/Ocultar",
        },
        Key::Quit => match lang {
            Lang::Pt => "Sair",
            Lang::En => "Quit",
            Lang::Es => "Salir",
        },
        Key::Pin => match lang {
            Lang::Pt => "Fixar",
            Lang::En => "Pin",
            Lang::Es => "Fijar",
        },
        Key::Unpin => match lang {
            Lang::Pt => "Desafixar",
            Lang::En => "Unpin",
            Lang::Es => "Desfijar",
        },
        Key::Delete => match lang {
            Lang::Pt => "Excluir",
            Lang::En => "Delete",
            Lang::Es => "Eliminar",
        },
        Key::Empty => match lang {
            Lang::Pt => "vazio — copie algo",
            Lang::En => "empty — copy something",
            Lang::Es => "vacío — copia algo",
        },
        Key::Vault => match lang {
            Lang::Pt => "Cofre",
            Lang::En => "Vault",
            Lang::Es => "Bóveda",
        },
        Key::MasterPassword => match lang {
            Lang::Pt => "Senha mestra",
            Lang::En => "Master password",
            Lang::Es => "Contraseña maestra",
        },
        Key::Unlock => match lang {
            Lang::Pt => "Destrancar",
            Lang::En => "Unlock",
            Lang::Es => "Desbloquear",
        },
        Key::NewVault => match lang {
            Lang::Pt => "Novo cofre",
            Lang::En => "New vault",
            Lang::Es => "Nueva bóveda",
        },
        Key::WrongPassword => match lang {
            Lang::Pt => "senha incorreta ou arquivo corrompido/adulterado",
            Lang::En => "wrong password or corrupted/tampered file",
            Lang::Es => "contraseña incorrecta o archivo corrupto/adulterado",
        },
        Key::Add => match lang {
            Lang::Pt => "Adicionar",
            Lang::En => "Add",
            Lang::Es => "Añadir",
        },
        Key::Save => match lang {
            Lang::Pt => "Salvar",
            Lang::En => "Save",
            Lang::Es => "Guardar",
        },
        Key::Items => match lang {
            Lang::Pt => "Itens",
            Lang::En => "Items",
            Lang::Es => "Elementos",
        },
        Key::Username => match lang {
            Lang::Pt => "Usuário",
            Lang::En => "Username",
            Lang::Es => "Usuario",
        },
        Key::Password => match lang {
            Lang::Pt => "Senha",
            Lang::En => "Password",
            Lang::Es => "Contraseña",
        },
        Key::Lock => match lang {
            Lang::Pt => "Trancar",
            Lang::En => "Lock",
            Lang::Es => "Bloquear",
        },
        Key::Totp => "TOTP",
        Key::QuickUnlock => match lang {
            Lang::Pt => "Desbloqueio rápido neste PC",
            Lang::En => "Quick unlock on this PC",
            Lang::Es => "Desbloqueo rápido en este PC",
        },
        Key::ForgetKey => match lang {
            Lang::Pt => "Esquecer chave",
            Lang::En => "Forget key",
            Lang::Es => "Olvidar clave",
        },
        Key::Edit => match lang {
            Lang::Pt => "Editar",
            Lang::En => "Edit",
            Lang::Es => "Editar",
        },
        Key::SecondsShort => "s",
        Key::TrashHint => match lang {
            Lang::Pt => "O item vai pra lixeira — recuperável no LocalKeys oficial.",
            Lang::En => "The item goes to trash — recoverable in the official LocalKeys.",
            Lang::Es => "El elemento va a la papelera — recuperable en LocalKeys oficial.",
        },
        Key::Install => match lang {
            Lang::Pt => "Instalar",
            Lang::En => "Install",
            Lang::Es => "Instalar",
        },
        Key::Update => match lang {
            Lang::Pt => "Atualizar",
            Lang::En => "Update",
            Lang::Es => "Actualizar",
        },
        Key::Open => match lang {
            Lang::Pt => "Abrir",
            Lang::En => "Open",
            Lang::Es => "Abrir",
        },
        Key::StartMenu => match lang {
            Lang::Pt => "Menu Iniciar",
            Lang::En => "Start menu",
            Lang::Es => "Menú Inicio",
        },
        Key::Desktop => match lang {
            Lang::Pt => "Área de trabalho",
            Lang::En => "Desktop",
            Lang::Es => "Escritorio",
        },
        Key::Installed => match lang {
            Lang::Pt => "instalado",
            Lang::En => "installed",
            Lang::Es => "instalado",
        },
        Key::Available => match lang {
            Lang::Pt => "disponível",
            Lang::En => "available",
            Lang::Es => "disponible",
        },
        Key::Downloading => match lang {
            Lang::Pt => "baixando",
            Lang::En => "downloading",
            Lang::Es => "descargando",
        },
        Key::Refresh => match lang {
            Lang::Pt => "Atualizar lista",
            Lang::En => "Refresh",
            Lang::Es => "Actualizar lista",
        },
        Key::UpToDate => match lang {
            Lang::Pt => "em dia",
            Lang::En => "up to date",
            Lang::Es => "al día",
        },
        Key::NotInstalled => match lang {
            Lang::Pt => "não instalado",
            Lang::En => "not installed",
            Lang::Es => "no instalado",
        },
        Key::Uninstall => match lang {
            Lang::Pt => "Desinstalar",
            Lang::En => "Uninstall",
            Lang::Es => "Desinstalar",
        },
        Key::Clean => match lang {
            Lang::Pt => "Limpeza",
            Lang::En => "Cleanup",
            Lang::Es => "Limpieza",
        },
        Key::OpenFolder => match lang {
            Lang::Pt => "Abrir pasta",
            Lang::En => "Open folder",
            Lang::Es => "Abrir carpeta",
        },
        Key::UninstallAsk => match lang {
            Lang::Pt => "Desinstalar e remover atalhos?",
            Lang::En => "Uninstall and remove shortcuts?",
            Lang::Es => "¿Desinstalar y quitar accesos?",
        },
        Key::Running => match lang {
            Lang::Pt => "rodando",
            Lang::En => "running",
            Lang::Es => "ejecutando",
        },
        Key::Restart => match lang {
            Lang::Pt => "reinicie o Lab Hub",
            Lang::En => "restart Lab Hub",
            Lang::Es => "reinicie Lab Hub",
        },
        Key::Settings => match lang {
            Lang::Pt => "Configurações",
            Lang::En => "Settings",
            Lang::Es => "Ajustes",
        },
        Key::Hotkey => match lang {
            Lang::Pt => "Atalho global",
            Lang::En => "Global hotkey",
            Lang::Es => "Atajo global",
        },
        Key::Define => match lang {
            Lang::Pt => "Definir…",
            Lang::En => "Set…",
            Lang::Es => "Definir…",
        },
        Key::Autostart => match lang {
            Lang::Pt => "Iniciar com o sistema",
            Lang::En => "Start with system",
            Lang::Es => "Iniciar con el sistema",
        },
        Key::PressKeys => match lang {
            Lang::Pt => "pressione as teclas…",
            Lang::En => "press the keys…",
            Lang::Es => "pulsa las teclas…",
        },
        Key::CloseToTray => match lang {
            Lang::Pt => "Fechar minimiza pra bandeja.",
            Lang::En => "Closing minimizes to tray.",
            Lang::Es => "Cerrar minimiza a la bandeja.",
        },
    }
}

/// Position of each key in `all_keys`.
pub open spec fn key_index(k: Key) -> int {
    match k {
        Key::Language => 0,
        Key::Theme => 1,
        Key::Error => 2,
        Key::Search => 3,
        Key::Copy => 4,
        Key::Cpu => 5,
        Key::Memory => 6,
        Key::Cores => 7,
        Key::Uptime => 8,
        Key::Disks => 9,
        Key::Processes => 10,
        Key::Filter => 11,
        Key::Name => 12,
        Key::End => 13,
        Key::KillTitle => 14,
        Key::KillAsk => 15,
        Key::Confirm => 16,
        Key::Cancel => 17,
        Key::History => 18,
        Key::Clear => 19,
        Key::ExprHint => 20,
        Key::NoHistory => 21,
        Key::ShowHide => 22,
        Key::Quit => 23,
        Key::Pin => 24,
        Key::Unpin => 25,
        Key::Delete => 26,
        Key::Empty => 27,
        Key::Vault => 28,
        Key::MasterPassword => 29,
        Key::Unlock => 30,
        Key::NewVault => 31,
        Key::WrongPassword => 32,
        Key::Add => 33,
        Key::Save => 34,
        Key::Items => 35,
        Key::Username => 36,
        Key::Password => 37,
        Key::Lock => 38,
        Key::Totp => 39,
        Key::QuickUnlock => 40,
        Key::ForgetKey => 41,
        Key::Edit => 42,
        Key::SecondsShort => 43,
        Key::TrashHint => 44,
        Key::Install => 45,
        Key::Update => 46,
        Key::Open => 47,
        Key::StartMenu => 48,
        Key::Desktop => 49,
        Key::Installed => 50,
        Key::Available => 51,
        Key::Downloading => 52,
        Key::Refresh => 53,
        Key::UpToDate => 54,
        Key::NotInstalled => 55,
        Key::Uninstall => 56,
        Key::Clean => 57,
        Key::OpenFolder => 58,
        Key::UninstallAsk => 59,
        Key::Running => 60,
        Key::Restart => 61,
        Key::Settings => 62,
        Key::Hotkey => 63,
        Key::Define => 64,
        Key::Autostart => 65,
        Key::PressKeys => 66,
        Key::CloseToTray => 67,
    }
}

/// Every key, each once.
pub fn all_keys() -> (r: [Key; 68])
    ensures
        forall|k: Key| #[trigger] r@[key_index(k)] == k && 0 <= key_index(k) < r@.len(),
{
    let r = [
        Key::Language,
        Key::Theme,
        Key::Error,
        Key::Search,
        Key::Copy,
        Key::Cpu,
        Key::Memory,
        Key::Cores,
        Key::Uptime,
        Key::Disks,
        Key::Processes,
        Key::Filter,
        Key::Name,
        Key::End,
        Key::KillTitle,
        Key::KillAsk,
        Key::Confirm,
        Key::Cancel,
        Key::History,
        Key::Clear,
        Key::ExprHint,
        Key::NoHistory,
        Key::ShowHide,
        Key::Quit,
        Key::Pin,
        Key::Unpin,
        Key::Delete,
        Key::Empty,
        Key::Vault,
        Key::MasterPassword,
        Key::Unlock,
        Key::NewVault,
        Key::WrongPassword,
        Key::Add,
        Key::Save,
        Key::Items,
        Key::Username,
        Key::Password,
        Key::Lock,
        Key::Totp,
        Key::QuickUnlock,
        Key::ForgetKey,
        Key::Edit,
        Key::SecondsShort,
        Key::TrashHint,
        Key::Install,
        Key::Update,
        Key::Open,
        Key::StartMenu,
        Key::Desktop,
        Key::Installed,
        Key::Available,
        Key::Downloading,
        Key::Refresh,
        Key::UpToDate,
        Key::NotInstalled,
        Key::Uninstall,
        Key::Clean,
        Key::OpenFolder,
        Key::UninstallAsk,
        Key::Running,
        Key::Restart,
        Key::Settings,
        Key::Hotkey,
        Key::Define,
        Key::Autostart,
        Key::PressKeys,
        Key::CloseToTray,
    ];
    proof {
        assert forall|k: Key| #[trigger] r@[key_index(k)] == k && 0 <= key_index(k) < r@.len() by {
            match k {
                Key::Language => assert(r[0] == Key::Language),
                Key::Theme => assert(r[1] == Key::Theme),
                Key::Error => assert(r[2] == Key::Error),
                Key::Search => assert(r[3] == Key::Search),
                Key::Copy => assert(r[4] == Key::Copy),
                Key::Cpu => assert(r[5] == Key::Cpu),
                Key::Memory => assert(r[6] == Key::Memory),
                Key::Cores => assert(r[7] == Key::Cores),
                Key::Uptime => assert(r[8] == Key::Uptime),
                Key::Disks => assert(r[9] == Key::Disks),
                Key::Processes => assert(r[10] == Key::Processes),
                Key::Filter => assert(r[11] == Key::Filter),
                Key::Name => assert(r[12] == Key::Name),
                Key::End => assert(r[13] == Key::End),
                Key::KillTitle => assert(r[14] == Key::KillTitle),
                Key::KillAsk => assert(r[15] == Key::KillAsk),
                Key::Confirm => assert(r[16] == Key::Confirm),
                Key::Cancel => assert(r[17] == Key::Cancel),
                Key::History => assert(r[18] == Key::History),
                Key::Clear => assert(r[19] == Key::Clear),
                Key::ExprHint => assert(r[20] == Key::ExprHint),
                Key::NoHistory => assert(r[21] == Key::NoHistory),
                Key::ShowHide => assert(r[22] == Key::ShowHide),
                Key::Quit => assert(r[23] == Key::Quit),
                Key::Pin => assert(r[24] == Key::Pin),
                Key::Unpin => assert(r[25] == Key::Unpin),
                Key::Delete => assert(r[26] == Key::Delete),
                Key::Empty => assert(r[27] == Key::Empty),
                Key::Vault => assert(r[28] == Key::Vault),
                Key::MasterPassword => assert(r[29] == Key::MasterPassword),
                Key::Unlock => assert(r[30] == Key::Unlock),
                Key::NewVault => assert(r[31] == Key::NewVault),
                Key::WrongPassword => assert(r[32] == Key::WrongPassword),
                Key::Add => assert(r[33] == Key::Add),
                Key::Save => assert(r[34] == Key::Save),
                Key::Items => assert(r[35] == Key::Items),
                Key::Username => assert(r[36] == Key::Username),
                Key::Password => assert(r[37] == Key::Password),
                Key::Lock => assert(r[38] == Key::Lock),
                Key::Totp => assert(r[39] == Key::Totp),
                Key::QuickUnlock => assert(r[40] == Key::QuickUnlock),
                Key::ForgetKey => assert(r[41] == Key::ForgetKey),
                Key::Edit => assert(r[42] == Key::Edit),
                Key::SecondsShort => assert(r[43] == Key::SecondsShort),
                Key::TrashHint => assert(r[44] == Key::TrashHint),
                Key::Install => assert(r[45] == Key::Install),
                Key::Update => assert(r[46] == Key::Update),
                Key::Open => assert(r[47] == Key::Open),
                Key::StartMenu => assert(r[48] == Key::StartMenu),
                Key::Desktop => assert(r[49] == Key::Desktop),
                Key::Installed => assert(r[50] == Key::Installed),
                Key::Available => assert(r[51] == Key::Available),
                Key::Downloading => assert(r[52] == Key::Downloading),
                Key::Refresh => assert(r[53] == Key::Refresh),
                Key::UpToDate => assert(r[54] == Key::UpToDate),
                Key::NotInstalled => assert(r[55] == Key::NotInstalled),
                Key::Uninstall => assert(r[56] == Key::Uninstall),
                Key::Clean => assert(r[57] == Key::Clean),
                Key::OpenFolder => assert(r[58] == Key::OpenFolder),
                Key::UninstallAsk => assert(r[59] == Key::UninstallAsk),
                Key::Running => assert(r[60] == Key::Running),
                Key::Restart => assert(r[61] == Key::Restart),
                Key::Settings => assert(r[62] == Key::Settings),
                Key::Hotkey => assert(r[63] == Key::Hotkey),
                Key::Define => assert(r[64] == Key::Define),
                Key::Autostart => assert(r[65] == Key::Autostart),
                Key::PressKeys => assert(r[66] == Key::PressKeys),
                Key::CloseToTray => assert(r[67] == Key::CloseToTray),
            }
        }
    }
    r
}

/// Each language is named in itself in the selector.
pub proof fn lemma_lang_labels()
    ensures
        lang_label_spec(Lang::Pt) == "Português"@,
        lang_label_spec(Lang::En) == "English"@,
        lang_label_spec(Lang::Es) == "Español"@,
{
}

/// The whole table, text by text: for every key and every language, the text
/// that `t` gives (through `text_spec`) is the one written here.
pub proof fn lemma_text_table()
    ensures
        text_spec(Lang::Pt, Key::Language) == "Idioma"@,
        text_spec(Lang::En, Key::Language) == "Language"@,
        text_spec(Lang::Es, Key::Language) == "Idioma"@,
        text_spec(Lang::Pt, Key::Theme) == "Tema"@,
        text_spec(Lang::En, Key::Theme) == "Theme"@,
        text_spec(Lang::Es, Key::Theme) == "Tema"@,
        text_spec(Lang::Pt, Key::Error) == "Erro"@,
        text_spec(Lang::En, Key::Error) == "Error"@,
        text_spec(Lang::Es, Key::Error) == "Error"@,
        text_spec(Lang::Pt, Key::Search) == "Buscar…"@,
        text_spec(Lang::En, Key::Search) == "Search…"@,
        text_spec(Lang::Es, Key::Search) == "Buscar…"@,
        text_spec(Lang::Pt, Key::Copy) == "Copiar"@,
        text_spec(Lang::En, Key::Copy) == "Copy"@,
        text_spec(Lang::Es, Key::Copy) == "Copiar"@,
        text_spec(Lang::Pt, Key::Cpu) == "CPU"@,
        text_spec(Lang::En, Key::Cpu) == "CPU"@,
        text_spec(Lang::Es, Key::Cpu) == "CPU"@,
        text_spec(Lang::Pt, Key::Memory) == "Memória"@,
        text_spec(Lang::En, Key::Memory) == "Memory"@,
        text_spec(Lang::Es, Key::Memory) == "Memoria"@,
        text_spec(Lang::Pt, Key::Cores) == "Núcleos"@,
        text_spec(Lang::En, Key::Cores) == "Cores"@,
        text_spec(Lang::Es, Key::Cores) == "Núcleos"@,
        text_spec(Lang::Pt, Key::Uptime) == "Ligado há"@,
        text_spec(Lang::En, Key::Uptime) == "Uptime"@,
        text_spec(Lang::Es, Key::Uptime) == "Tiempo encendido"@,
        text_spec(Lang::Pt, Key::Disks) == "Discos"@,
        text_spec(Lang::En, Key::Disks) == "Disks"@,
        text_spec(Lang::Es, Key::Disks) == "Discos"@,
        text_spec(Lang::Pt, Key::Processes) == "Processos"@,
        text_spec(Lang::En, Key::Processes) == "Processes"@,
        text_spec(Lang::Es, Key::Processes) == "Procesos"@,
        text_spec(Lang::Pt, Key::Filter) == "Filtrar"@,
        text_spec(Lang::En, Key::Filter) == "Filter"@,
        text_spec(Lang::Es, Key::Filter) == "Filtrar"@,
        text_spec(Lang::Pt, Key::Name) == "Nome"@,
        text_spec(Lang::En, Key::Name) == "Name"@,
        text_spec(Lang::Es, Key::Name) == "Nombre"@,
        text_spec(Lang::Pt, Key::End) == "Encerrar"@,
        text_spec(Lang::En, Key::End) == "End task"@,
        text_spec(Lang::Es, Key::End) == "Finalizar"@,
        text_spec(Lang::Pt, Key::KillTitle) == "Encerrar processo?"@,
        text_spec(Lang::En, Key::KillTitle) == "End process?"@,
        text_spec(Lang::Es, Key::KillTitle) == "¿Finalizar proceso?"@,
        text_spec(Lang::Pt, Key::KillAsk) == "O trabalho não salvo deste app se perde."@,
        text_spec(Lang::En, Key::KillAsk) == "Unsaved work in that app is lost."@,
        text_spec(Lang::Es, Key::KillAsk) == "El trabajo no guardado de esa app se pierde."@,
        text_spec(Lang::Pt, Key::Confirm) == "Confirmar"@,
        text_spec(Lang::En, Key::Confirm) == "Confirm"@,
        text_spec(Lang::Es, Key::Confirm) == "Confirmar"@,
        text_spec(Lang::Pt, Key::Cancel) == "Cancelar"@,
        text_spec(Lang::En, Key::Cancel) == "Cancel"@,
        text_spec(Lang::Es, Key::Cancel) == "Cancelar"@,
        text_spec(Lang::Pt, Key::History) == "Histórico"@,
        text_spec(Lang::En, Key::History) == "History"@,
        text_spec(Lang::Es, Key::History) == "Historial"@,
        text_spec(Lang::Pt, Key::Clear) == "Limpar"@,
        text_spec(Lang::En, Key::Clear) == "Clear"@,
        text_spec(Lang::Es, Key::Clear) == "Borrar"@,
        text_spec(Lang::Pt, Key::ExprHint) == "expresse, ex.: 2*(3+4)^2"@,
        text_spec(Lang::En, Key::ExprHint) == "type an expression, e.g. 2*(3+4)^2"@,
        text_spec(Lang::Es, Key::ExprHint) == "escribe una expresión, p. ej. 2*(3+4)^2"@,
        text_spec(Lang::Pt, Key::NoHistory) == "sem contas ainda"@,
        text_spec(Lang::En, Key::NoHistory) == "no calculations yet"@,
        text_spec(Lang::Es, Key::NoHistory) == "sin cálculos aún"@,
        text_spec(Lang::Pt, Key::ShowHide) == "Mostrar/Ocultar"@,
        text_spec(Lang::En, Key::ShowHide) == "Show/Hide"@,
        text_spec(Lang::Es, Key::ShowHide) == "Mostrar/Ocultar"@,
        text_spec(Lang::Pt, Key::Quit) == "Sair"@,
        text_spec(Lang::En, Key::Quit) == "Quit"@,
        text_spec(Lang::Es, Key::Quit) == "Salir"@,
        text_spec(Lang::Pt, Key::Pin) == "Fixar"@,
        text_spec(Lang::En, Key::Pin) == "Pin"@,
        text_spec(Lang::Es, Key::Pin) == "Fijar"@,
        text_spec(Lang::Pt, Key::Unpin) == "Desafixar"@,
        text_spec(Lang::En, Key::Unpin) == "Unpin"@,
        text_spec(Lang::Es, Key::Unpin) == "Desfijar"@,
        text_spec(Lang::Pt, Key::Delete) == "Excluir"@,
        text_spec(Lang::En, Key::Delete) == "Delete"@,
        text_spec(Lang::Es, Key::Delete) == "Eliminar"@,
        text_spec(Lang::Pt, Key::Empty) == "vazio — copie algo"@,
        text_spec(Lang::En, Key::Empty) == "empty — copy something"@,
        text_spec(Lang::Es, Key::Empty) == "vacío — copia algo"@,
        text_spec(Lang::Pt, Key::Vault) == "Cofre"@,
        text_spec(Lang::En, Key::Vault) == "Vault"@,
        text_spec(Lang::Es, Key::Vault) == "Bóveda"@,
        text_spec(Lang::Pt, Key::MasterPassword) == "Senha mestra"@,
        text_spec(Lang::En, Key::MasterPassword) == "Master password"@,
        text_spec(Lang::Es, Key::MasterPassword) == "Contraseña maestra"@,
        text_spec(Lang::Pt, Key::Unlock) == "Destrancar"@,
        text_spec(Lang::En, Key::Unlock) == "Unlock"@,
        text_spec(Lang::Es, Key::Unlock) == "Desbloquear"@,
        text_spec(Lang::Pt, Key::NewVault) == "Novo cofre"@,
        text_spec(Lang::En, Key::NewVault) == "New vault"@,
        text_spec(Lang::Es, Key::NewVault) == "Nueva bóveda"@,
        text_spec(Lang::Pt, Key::WrongPassword) == "senha incorreta ou arquivo corrompido/adulterado"@,
        text_spec(Lang::En, Key::WrongPassword) == "wrong password or corrupted/tampered file"@,
        text_spec(Lang::Es, Key::WrongPassword) == "contraseña incorrecta o archivo corrupto/adulterado"@,
        text_spec(Lang::Pt, Key::Add) == "Adicionar"@,
        text_spec(Lang::En, Key::Add) == "Add"@,
        text_spec(Lang::Es, Key::Add) == "Añadir"@,
        text_spec(Lang::Pt, Key::Save) == "Salvar"@,
        text_spec(Lang::En, Key::Save) == "Save"@,
        text_spec(Lang::Es, Key::Save) == "Guardar"@,
        text_spec(Lang::Pt, Key::Items) == "Itens"@,
        text_spec(Lang::En, Key::Items) == "Items"@,
        text_spec(Lang::Es, Key::Items) == "Elementos"@,
        text_spec(Lang::Pt, Key::Username) == "Usuário"@,
        text_spec(Lang::En, Key::Username) == "Username"@,
        text_spec(Lang::Es, Key::Username) == "Usuario"@,
        text_spec(Lang::Pt, Key::Password) == "Senha"@,
        text_spec(Lang::En, Key::Password) == "Password"@,
        text_spec(Lang::Es, Key::Password) == "Contraseña"@,
        text_spec(Lang::Pt, Key::Lock) == "Trancar"@,
        text_spec(Lang::En, Key::Lock) == "Lock"@,
        text_spec(Lang::Es, Key::Lock) == "Bloquear"@,
        text_spec(Lang::Pt, Key::Totp) == "TOTP"@,
        text_spec(Lang::En, Key::Totp) == "TOTP"@,
        text_spec(Lang::Es, Key::Totp) == "TOTP"@,
        text_spec(Lang::Pt, Key::QuickUnlock) == "Desbloqueio rápido neste PC"@,
        text_spec(Lang::En, Key::QuickUnlock) == "Quick unlock on this PC"@,
        text_spec(Lang::Es, Key::QuickUnlock) == "Desbloqueo rápido en este PC"@,
        text_spec(Lang::Pt, Key::ForgetKey) == "Esquecer chave"@,
        text_spec(Lang::En, Key::ForgetKey) == "Forget key"@,
        text_spec(Lang::Es, Key::ForgetKey) == "Olvidar clave"@,
        text_spec(Lang::Pt, Key::Edit) == "Editar"@,
        text_spec(Lang::En, Key::Edit) == "Edit"@,
        text_spec(Lang::Es, Key::Edit) == "Editar"@,
        text_spec(Lang::Pt, Key::SecondsShort) == "s"@,
        text_spec(Lang::En, Key::SecondsShort) == "s"@,
        text_spec(Lang::Es, Key::SecondsShort) == "s"@,
        text_spec(Lang::Pt, Key::Install) == "Instalar"@,
        text_spec(Lang::En, Key::Install) == "Install"@,
        text_spec(Lang::Es, Key::Install) == "Instalar"@,
        text_spec(Lang::Pt, Key::Update) == "Atualizar"@,
        text_spec(Lang::En, Key::Update) == "Update"@,
        text_spec(Lang::Es, Key::Update) == "Actualizar"@,
        text_spec(Lang::Pt, Key::Open) == "Abrir"@,
        text_spec(Lang::En, Key::Open) == "Open"@,
        text_spec(Lang::Es, Key::Open) == "Abrir"@,
        text_spec(Lang::Pt, Key::StartMenu) == "Menu Iniciar"@,
        text_spec(Lang::En, Key::StartMenu) == "Start menu"@,
        text_spec(Lang::Es, Key::StartMenu) == "Menú Inicio"@,
        text_spec(Lang::Pt, Key::Desktop) == "Área de trabalho"@,
        text_spec(Lang::En, Key::Desktop) == "Desktop"@,
        text_spec(Lang::Es, Key::Desktop) == "Escritorio"@,
        text_spec(Lang::Pt, Key::Installed) == "instalado"@,
        text_spec(Lang::En, Key::Installed) == "installed"@,
        text_spec(Lang::Es, Key::Installed) == "instalado"@,
        text_spec(Lang::Pt, Key::Available) == "disponível"@,
        text_spec(Lang::En, Key::Available) == "available"@,
        text_spec(Lang::Es, Key::Available) == "disponible"@,
        text_spec(Lang::Pt, Key::Downloading) == "baixando"@,
        text_spec(Lang::En, Key::Downloading) == "downloading"@,
        text_spec(Lang::Es, Key::Downloading) == "descargando"@,
        text_spec(Lang::Pt, Key::Refresh) == "Atualizar lista"@,
        text_spec(Lang::En, Key::Refresh) == "Refresh"@,
        text_spec(Lang::Es, Key::Refresh) == "Actualizar lista"@,
        text_spec(Lang::Pt, Key::UpToDate) == "em dia"@,
        text_spec(Lang::En, Key::UpToDate) == "up to date"@,
        text_spec(Lang::Es, Key::UpToDate) == "al día"@,
        text_spec(Lang::Pt, Key::NotInstalled) == "não instalado"@,
        text_spec(Lang::En, Key::NotInstalled) == "not installed"@,
        text_spec(Lang::Es, Key::NotInstalled) == "no instalado"@,
        text_spec(Lang::Pt, Key::Uninstall) == "Desinstalar"@,
        text_spec(Lang::En, Key::Uninstall) == "Uninstall"@,
        text_spec(Lang::Es, Key::Uninstall) == "Desinstalar"@,
        text_spec(Lang::Pt, Key::Clean) == "Limpeza"@,
        text_spec(Lang::En, Key::Clean) == "Cleanup"@,
        text_spec(Lang::Es, Key::Clean) == "Limpieza"@,
        text_spec(Lang::Pt, Key::OpenFolder) == "Abrir pasta"@,
        text_spec(Lang::En, Key::OpenFolder) == "Open folder"@,
        text_spec(Lang::Es, Key::OpenFolder) == "Abrir carpeta"@,
        text_spec(Lang::Pt, Key::UninstallAsk) == "Desinstalar e remover atalhos?"@,
        text_spec(Lang::En, Key::UninstallAsk) == "Uninstall and remove shortcuts?"@,
        text_spec(Lang::Es, Key::UninstallAsk) == "¿Desinstalar y quitar accesos?"@,
        text_spec(Lang::Pt, Key::Running) == "rodando"@,
        text_spec(Lang::En, Key::Running) == "running"@,
        text_spec(Lang::Es, Key::Running) == "ejecutando"@,
        text_spec(Lang::Pt, Key::Restart) == "reinicie o Lab Hub"@,
        text_spec(Lang::En, Key::Restart) == "restart Lab Hub"@,
        text_spec(Lang::Es, Key::Restart) == "reinicie Lab Hub"@,
        text_spec(Lang::Pt, Key::TrashHint) == "O item vai pra lixeira — recuperável no LocalKeys oficial."@,
        text_spec(Lang::En, Key::TrashHint) == "The item goes to trash — recoverable in the official LocalKeys."@,
        text_spec(Lang::Es, Key::TrashHint) == "El elemento va a la papelera — recuperable en LocalKeys oficial."@,
        text_spec(Lang::Pt, Key::Settings) == "Configurações"@,
        text_spec(Lang::En, Key::Settings) == "Settings"@,
        text_spec(Lang::Es, Key::Settings) == "Ajustes"@,
        text_spec(Lang::Pt, Key::Hotkey) == "Atalho global"@,
        text_spec(Lang::En, Key::Hotkey) == "Global hotkey"@,
        text_spec(Lang::Es, Key::Hotkey) == "Atajo global"@,
        text_spec(Lang::Pt, Key::Define) == "Definir…"@,
        text_spec(Lang::En, Key::Define) == "Set…"@,
        text_spec(Lang::Es, Key::Define) == "Definir…"@,
        text_spec(Lang::Pt, Key::Autostart) == "Iniciar com o sistema"@,
        text_spec(Lang::En, Key::Autostart) == "Start with system"@,
        text_spec(Lang::Es, Key::Autostart) == "Iniciar con el sistema"@,
        text_spec(Lang::Pt, Key::PressKeys) == "pressione as teclas…"@,
        text_spec(Lang::En, Key::PressKeys) == "press the keys…"@,
        text_spec(Lang::Es, Key::PressKeys) == "pulsa las teclas…"@,
        text_spec(Lang::Pt, Key::CloseToTray) == "Fechar minimiza pra bandeja."@,
        text_spec(Lang::En, Key::CloseToTray) == "Closing minimizes to tray."@,
        text_spec(Lang::Es, Key::CloseToTray) == "Cerrar minimiza a la bandeja."@,
{
}

/// Every key has a non-empty text in every language.
pub proof fn lemma_every_text_nonempty(lang: Lang, key: Key)
    ensures
        text_spec(lang, key).len() > 0,
{
    match key {
        Key::Language => match lang {
            Lang::Pt => reveal_strlit("Idioma"),
            Lang::En => reveal_strlit("Language"),
            Lang::Es => reveal_strlit("Idioma"),
        },
        Key::Theme => match lang {
            Lang::Pt => reveal_strlit("Tema"),
            Lang::En => reveal_strlit("Theme"),
            Lang::Es => reveal_strlit("Tema"),
        },
        Key::Error => match lang {
            Lang::Pt => reveal_strlit("Erro"),
            Lang::En => reveal_strlit("Error"),
            Lang::Es => reveal_strlit("Error"),
        },
        Key::Search => match lang {
            Lang::Pt => reveal_strlit("Buscar…"),
            Lang::En => reveal_strlit("Search…"),
            Lang::Es => reveal_strlit("Buscar…"),
        },
        Key::Copy => match lang {
            Lang::Pt => reveal_strlit("Copiar"),
            Lang::En => reveal_strlit("Copy"),
            Lang::Es => reveal_strlit("Copiar"),
        },
        Key::Cpu => reveal_strlit("CPU"),
        Key::Memory => match lang {
            Lang::Pt => reveal_strlit("Memória"),
            Lang::En => reveal_strlit("Memory"),
            Lang::Es => reveal_strlit("Memoria"),
        },
        Key::Cores => match lang {
            Lang::Pt => reveal_strlit("Núcleos"),
            Lang::En => reveal_strlit("Cores"),
            Lang::Es => reveal_strlit("Núcleos"),
        },
        Key::Uptime => match lang {
            Lang::Pt => reveal_strlit("Ligado há"),
            Lang::En => reveal_strlit("Uptime"),
            Lang::Es => reveal_strlit("Tiempo encendido"),
        },
        Key::Disks => match lang {
            Lang::Pt => reveal_strlit("Discos"),
            Lang::En => reveal_strlit("Disks"),
            Lang::Es => reveal_strlit("Discos"),
        },
        Key::Processes => match lang {
            Lang::Pt => reveal_strlit("Processos"),
            Lang::En => reveal_strlit("Processes"),
            Lang::Es => reveal_strlit("Procesos"),
        },
        Key::Filter => match lang {
            Lang::Pt => reveal_strlit("Filtrar"),
            Lang::En => reveal_strlit("Filter"),
            Lang::Es => reveal_strlit("Filtrar"),
        },
        Key::Name => match lang {
            Lang::Pt => reveal_strlit("Nome"),
            Lang::En => reveal_strlit("Name"),
            Lang::Es => reveal_strlit("Nombre"),
        },
        Key::End => match lang {
            Lang::Pt => reveal_strlit("Encerrar"),
            Lang::En => reveal_strlit("End task"),
            Lang::Es => reveal_strlit("Finalizar"),
        },
        Key::KillTitle => match lang {
            Lang::Pt => reveal_strlit("Encerrar processo?"),
            Lang::En => reveal_strlit("End process?"),
            Lang::Es => reveal_strlit("¿Finalizar proceso?"),
        },
        Key::KillAsk => match lang {
            Lang::Pt => reveal_strlit("O trabalho não salvo deste app se perde."),
            Lang::En => reveal_strlit("Unsaved work in that app is lost."),
            Lang::Es => reveal_strlit("El trabajo no guardado de esa app se pierde."),
        },
        Key::Confirm => match lang {
            Lang::Pt => reveal_strlit("Confirmar"),
            Lang::En => reveal_strlit("Confirm"),
            Lang::Es => reveal_strlit("Confirmar"),
        },
        Key::Cancel => match lang {
            Lang::Pt => reveal_strlit("Cancelar"),
            Lang::En => reveal_strlit("Cancel"),
            Lang::Es => reveal_strlit("Cancelar"),
        },
        Key::History => match lang {
            Lang::Pt => reveal_strlit("Histórico"),
            Lang::En => reveal_strlit("History"),
            Lang::Es => reveal_strlit("Historial"),
        },
        Key::Clear => match lang {
            Lang::Pt => reveal_strlit("Limpar"),
            Lang::En => reveal_strlit("Clear"),
            Lang::Es => reveal_strlit("Borrar"),
        },
        Key::ExprHint => match lang {
            Lang::Pt => reveal_strlit("expresse, ex.: 2*(3+4)^2"),
            Lang::En => reveal_strlit("type an expression, e.g. 2*(3+4)^2"),
            Lang::Es => reveal_strlit("escribe una expresión, p. ej. 2*(3+4)^2"),
        },
        Key::NoHistory => match lang {
            Lang::Pt => reveal_strlit("sem contas ainda"),
            Lang::En => reveal_strlit("no calculations yet"),
            Lang::Es => reveal_strlit("sin cálculos aún"),
        },
        Key::ShowHide => match lang {
            Lang::Pt => reveal_strlit("Mostrar/Ocultar"),
            Lang::En => reveal_strlit("Show/Hide"),
            Lang::Es => reveal_strlit("Mostrar/Ocultar"),
        },
        Key::Quit => match lang {
            Lang::Pt => reveal_strlit("Sair"),
            Lang::En => reveal_strlit("Quit"),
            Lang::Es => reveal_strlit("Salir"),
        },
        Key::Pin => match lang {
            Lang::Pt => reveal_strlit("Fixar"),
            Lang::En => reveal_strlit("Pin"),
            Lang::Es => reveal_strlit("Fijar"),
        },
        Key::Unpin => match lang {
            Lang::Pt => reveal_strlit("Desafixar"),
            Lang::En => reveal_strlit("Unpin"),
            Lang::Es => reveal_strlit("Desfijar"),
        },
        Key::Delete => match lang {
            Lang::Pt => reveal_strlit("Excluir"),
            Lang::En => reveal_strlit("Delete"),
            Lang::Es => reveal_strlit("Eliminar"),
        },
        Key::Empty => match lang {
            Lang::Pt => reveal_strlit("vazio — copie algo"),
            Lang::En => reveal_strlit("empty — copy something"),
            Lang::Es => reveal_strlit("vacío — copia algo"),
        },
        Key::Vault => match lang {
            Lang::Pt => reveal_strlit("Cofre"),
            Lang::En => reveal_strlit("Vault"),
            Lang::Es => reveal_strlit("Bóveda"),
        },
        Key::MasterPassword => match lang {
            Lang::Pt => reveal_strlit("Senha mestra"),
            Lang::En => reveal_strlit("Master password"),
            Lang::Es => reveal_strlit("Contraseña maestra"),
        },
        Key::Unlock => match lang {
            Lang::Pt => reveal_strlit("Destrancar"),
            Lang::En => reveal_strlit("Unlock"),
            Lang::Es => reveal_strlit("Desbloquear"),
        },
        Key::NewVault => match lang {
            Lang::Pt => reveal_strlit("Novo cofre"),
            Lang::En => reveal_strlit("New vault"),
            Lang::Es => reveal_strlit("Nueva bóveda"),
        },
        Key::WrongPassword => match lang {
            Lang::Pt => reveal_strlit("senha incorreta ou arquivo corrompido/adulterado"),
            Lang::En => reveal_strlit("wrong password or corrupted/tampered file"),
            Lang::Es => reveal_strlit("contraseña incorrecta o archivo corrupto/adulterado"),
        },
        Key::Add => match lang {
            Lang::Pt => reveal_strlit("Adicionar"),
            Lang::En => reveal_strlit("Add"),
            Lang::Es => reveal_strlit("Añadir"),
        },
        Key::Save => match lang {
            Lang::Pt => reveal_strlit("Salvar"),
            Lang::En => reveal_strlit("Save"),
            Lang::Es => reveal_strlit("Guardar"),
        },
        Key::Items => match lang {
            Lang::Pt => reveal_strlit("Itens"),
            Lang::En => reveal_strlit("Items"),
            Lang::Es => reveal_strlit("Elementos"),
        },
        Key::Username => match lang {
            Lang::Pt => reveal_strlit("Usuário"),
            Lang::En => reveal_strlit("Username"),
            Lang::Es => reveal_strlit("Usuario"),
        },
        Key::Password => match lang {
            Lang::Pt => reveal_strlit("Senha"),
            Lang::En => reveal_strlit("Password"),
            Lang::Es => reveal_strlit("Contraseña"),
        },
        Key::Lock => match lang {
            Lang::Pt => reveal_strlit("Trancar"),
            Lang::En => reveal_strlit("Lock"),
            Lang::Es => reveal_strlit("Bloquear"),
        },
        Key::Totp => reveal_strlit("TOTP"),
        Key::QuickUnlock => match lang {
            Lang::Pt => reveal_strlit("Desbloqueio rápido neste PC"),
            Lang::En => reveal_strlit("Quick unlock on this PC"),
            Lang::Es => reveal_strlit("Desbloqueo rápido en este PC"),
        },
        Key::ForgetKey => match lang {
            Lang::Pt => reveal_strlit("Esquecer chave"),
            Lang::En => reveal_strlit("Forget key"),
            Lang::Es => reveal_strlit("Olvidar clave"),
        },
        Key::Edit => match lang {
            Lang::Pt => reveal_strlit("Editar"),
            Lang::En => reveal_strlit("Edit"),
            Lang::Es => reveal_strlit("Editar"),
        },
        Key::SecondsShort => reveal_strlit("s"),
        Key::TrashHint => match lang {
            Lang::Pt => reveal_strlit("O item vai pra lixeira — recuperável no LocalKeys oficial."),
            Lang::En => reveal_strlit("The item goes to trash — recoverable in the official LocalKeys."),
            Lang::Es => reveal_strlit("El elemento va a la papelera — recuperable en LocalKeys oficial."),
        },
        Key::Install => match lang {
            Lang::Pt => reveal_strlit("Instalar"),
            Lang::En => reveal_strlit("Install"),
            Lang::Es => reveal_strlit("Instalar"),
        },
        Key::Update => match lang {
            Lang::Pt => reveal_strlit("Atualizar"),
            Lang::En => reveal_strlit("Update"),
            Lang::Es => reveal_strlit("Actualizar"),
        },
        Key::Open => match lang {
            Lang::Pt => reveal_strlit("Abrir"),
            Lang::En => reveal_strlit("Open"),
            Lang::Es => reveal_strlit("Abrir"),
        },
        Key::StartMenu => match lang {
            Lang::Pt => reveal_strlit("Menu Iniciar"),
            Lang::En => reveal_strlit("Start menu"),
            Lang::Es => reveal_strlit("Menú Inicio"),
        },
        Key::Desktop => match lang {
            Lang::Pt => reveal_strlit("Área de trabalho"),
            Lang::En => reveal_strlit("Desktop"),
            Lang::Es => reveal_strlit("Escritorio"),
        },
        Key::Installed => match lang {
            Lang::Pt => reveal_strlit("instalado"),
            Lang::En => reveal_strlit("installed"),
            Lang::Es => reveal_strlit("instalado"),
        },
        Key::Available => match lang {
            Lang::Pt => reveal_strlit("disponível"),
            Lang::En => reveal_strlit("available"),
            Lang::Es => reveal_strlit("disponible"),
        },
        Key::Downloading => match lang {
            Lang::Pt => reveal_strlit("baixando"),
            Lang::En => reveal_strlit("downloading"),
            Lang::Es => reveal_strlit("descargando"),
        },
        Key::Refresh => match lang {
            Lang::Pt => reveal_strlit("Atualizar lista"),
            Lang::En => reveal_strlit("Refresh"),
            Lang::Es => reveal_strlit("Actualizar lista"),
        },
        Key::UpToDate => match lang {
            Lang::Pt => reveal_strlit("em dia"),
            Lang::En => reveal_strlit("up to date"),
            Lang::Es => reveal_strlit("al día"),
        },
        Key::NotInstalled => match lang {
            Lang::Pt => reveal_strlit("não instalado"),
            Lang::En => reveal_strlit("not installed"),
            Lang::Es => reveal_strlit("no instalado"),
        },
        Key::Uninstall => match lang {
            Lang::Pt => reveal_strlit("Desinstalar"),
            Lang::En => reveal_strlit("Uninstall"),
            Lang::Es => reveal_strlit("Desinstalar"),
        },
        Key::Clean => match lang {
            Lang::Pt => reveal_strlit("Limpeza"),
            Lang::En => reveal_strlit("Cleanup"),
            Lang::Es => reveal_strlit("Limpieza"),
        },
        Key::OpenFolder => match lang {
            Lang::Pt => reveal_strlit("Abrir pasta"),
            Lang::En => reveal_strlit("Open folder"),
            Lang::Es => reveal_strlit("Abrir carpeta"),
        },
        Key::UninstallAsk => match lang {
            Lang::Pt => reveal_strlit("Desinstalar e remover atalhos?"),
            Lang::En => reveal_strlit("Uninstall and remove shortcuts?"),
            Lang::Es => reveal_strlit("¿Desinstalar y quitar accesos?"),
        },
        Key::Running => match lang {
            Lang::Pt => reveal_strlit("rodando"),
            Lang::En => reveal_strlit("running"),
            Lang::Es => reveal_strlit("ejecutando"),
        },
        Key::Restart => match lang {
            Lang::Pt => reveal_strlit("reinicie o Lab Hub"),
            Lang::En => reveal_strlit("restart Lab Hub"),
            Lang::Es => reveal_strlit("reinicie Lab Hub"),
        },
        Key::Settings => match lang {
            Lang::Pt => reveal_strlit("Configurações"),
            Lang::En => reveal_strlit("Settings"),
            Lang::Es => reveal_strlit("Ajustes"),
        },
        Key::Hotkey => match lang {
            Lang::Pt => reveal_strlit("Atalho global"),
            Lang::En => reveal_strlit("Global hotkey"),
            Lang::Es => reveal_strlit("Atajo global"),
        },
        Key::Define => match lang {
            Lang::Pt => reveal_strlit("Definir…"),
            Lang::En => reveal_strlit("Set…"),
            Lang::Es => reveal_strlit("Definir…"),
        },
        Key::Autostart => match lang {
            Lang::Pt => reveal_strlit("Iniciar com o sistema"),
            Lang::En => reveal_strlit("Start with system"),
            Lang::Es => reveal_strlit("Iniciar con el sistema"),
        },
        Key::PressKeys => match lang {
            Lang::Pt => reveal_strlit("pressione as teclas…"),
            Lang::En => reveal_strlit("press the keys…"),
            Lang::Es => reveal_strlit("pulsa las teclas…"),
        },
        Key::CloseToTray => match lang {
            Lang::Pt => reveal_strlit("Fechar minimiza pra bandeja."),
            Lang::En => reveal_strlit("Closing minimizes to tray."),
            Lang::Es => reveal_strlit("Cerrar minimiza a la bandeja."),
        },
    }
}

} // verus!
