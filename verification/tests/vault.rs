use lab_suite::json::Json;
use lab_suite::vault::{
    add_login, add_login_with, delete_login, delete_login_at, edit_login, edit_login_at, item_values,
    items_view, login_pair, login_triple, RawItem, RawLogin, EMPTY_VAULT,
};
use lab_suite::vault::{check_new_master, save_entry_at, SaveOutcome};
use serde_json::Value;

fn conv(v: &Value) -> Json {
    match v {
        Value::Null => Json::Null,
        Value::Bool(b) => Json::Bool(*b),
        Value::Number(n) => Json::Num(n.to_string()),
        Value::String(s) => Json::Str(s.clone()),
        Value::Array(a) => Json::Arr(a.iter().map(conv).collect()),
        Value::Object(m) => Json::Obj(m.iter().map(|(k, x)| (k.clone(), conv(x))).collect()),
    }
}

fn back(j: &Json) -> Value {
    match j {
        Json::Null => Value::Null,
        Json::Bool(b) => Value::Bool(*b),
        Json::Num(n) => serde_json::from_str(n).unwrap(),
        Json::Str(s) => Value::String(s.clone()),
        Json::Arr(a) => Value::Array(a.iter().map(back).collect()),
        Json::Obj(f) => Value::Object(f.iter().map(|(k, x)| (k.clone(), back(x))).collect()),
    }
}

fn parse(text: &str) -> Json {
    conv(&serde_json::from_str::<Value>(text).unwrap())
}

/// The fields a list row reads, decoded as the vault's defaults say
/// (missing field = default, wrong type = the item is skipped).
fn decode(v: &Value) -> Option<RawItem> {
    let o = v.as_object()?;
    let s = |k: &str| -> Option<String> {
        match o.get(k) {
            None => Some(String::new()),
            Some(x) => x.as_str().map(|t| t.to_string()),
        }
    };
    let favorite = match o.get("favorite") {
        None => false,
        Some(x) => x.as_bool()?,
    };
    let deleted_at = match o.get("deletedAt") {
        None | Some(Value::Null) => None,
        Some(x) => Some(x.as_i64()?),
    };
    let login = match o.get("login") {
        None | Some(Value::Null) => None,
        Some(l) => {
            let lo = l.as_object()?;
            let f = |k: &str| -> Option<String> {
                match lo.get(k) {
                    None => Some(String::new()),
                    Some(x) => x.as_str().map(|t| t.to_string()),
                }
            };
            Some(RawLogin { username: f("username")?, totp: f("totp")? })
        },
    };
    Some(RawItem { id: s("id")?, name: s("name")?, favorite, deleted_at, login })
}

fn view(raw: &Json) -> Vec<lab_suite::vault::ItemView> {
    let parsed: Vec<Option<RawItem>> = item_values(raw).iter().map(|j| decode(&back(j))).collect();
    items_view(parsed)
}

fn vault_com_item() -> Json {
    let mut v = parse(EMPTY_VAULT);
    add_login(&mut v, "Gmail", "joao", "secreta").unwrap();
    v
}

#[test]
fn add_login_popula_items() {
    let v = back(&vault_com_item());
    let items = v["items"].as_array().unwrap();
    assert_eq!(items.len(), 1);
    assert_eq!(items[0]["kind"], "login");
    assert_eq!(items[0]["name"], "Gmail");
    assert_eq!(items[0]["login"]["username"], "joao");
    assert!(items[0].get("createdAt").is_some());
    assert!(items[0].get("deletedAt").is_some());
    assert!(items[0].get("folderId").is_some());
}

#[test]
fn view_esconde_lixeira() {
    let mut v = back(&vault_com_item());
    v["items"][0]["deletedAt"] = Value::from(1700000000000i64);
    assert!(view(&conv(&v)).is_empty());
}

#[test]
fn login_pair_devolve_as_credenciais() {
    let v = vault_com_item();
    let id = back(&v)["items"][0]["id"].as_str().unwrap().to_string();
    assert_eq!(login_pair(&v, &id), Some(("joao".into(), "secreta".into())));
    assert_eq!(login_pair(&v, "id-que-nao-existe"), None);
}

#[test]
fn add_preserva_campos_desconhecidos() {
    let mut v = parse(
        r#"{"version":1,"folders":[{"id":"f1","name":"Pessoal"}],
           "items":[{"id":"x","kind":"note","name":"nota",
                      "customFields":[{"id":"c1","name":"k","value":"v","hidden":false},
                                      {"id":"c2","name":"k2","value":"v2","hidden":true}],
                      "attachments":[{"id":"a1","name":"f.png","size":10,"mime":"image/png","dataB64":"aGk="}]}]}"#,
    );
    add_login(&mut v, "Novo", "u", "p").unwrap();
    let v = back(&v);
    assert_eq!(v["folders"][0]["name"], "Pessoal");
    assert_eq!(v["items"].as_array().unwrap().len(), 2);
    assert_eq!(v["items"][0]["customFields"].as_array().unwrap().len(), 2);
    assert_eq!(v["items"][0]["attachments"][0]["mime"], "image/png");
    assert_eq!(v["items"][1]["login"]["password"], "p");
}

#[test]
fn view_mostra_totp_quando_existe() {
    let mut v = back(&vault_com_item());
    v["items"][0]["login"]["totp"] = Value::from("JBSWY3DPEHPK3PXP");
    let items = view(&conv(&v));
    assert_eq!(items[0].totp.as_deref(), Some("JBSWY3DPEHPK3PXP"));

    let mut v2 = back(&vault_com_item());
    v2["items"][0]["login"]["totp"] = Value::from("");
    assert!(view(&conv(&v2))[0].totp.is_none());
}

#[test]
fn edita_login_sem_derrubar_o_resto() {
    let mut v = parse(
        r#"{"version":1,"folders":[{"id":"f1","name":"Pessoal"}],
           "items":[{"id":"x","kind":"login","name":"Antigo","favorite":true,"folderId":"f1",
                      "notes":"keep me","createdAt":1,"updatedAt":1,"deletedAt":null,
                      "login":{"username":"u","password":"p","uris":["https://a"],"totp":""}}]}"#,
    );
    assert!(edit_login(&mut v, "x", "Novo", "user2", "pass2", "JBSWY3DPEHPK3PXP"));
    let b = back(&v);
    let it = &b["items"][0];
    assert_eq!(it["name"], "Novo");
    assert_eq!(it["login"]["username"], "user2");
    assert_eq!(it["login"]["password"], "pass2");
    assert_eq!(it["login"]["totp"], "JBSWY3DPEHPK3PXP");
    assert_eq!(it["favorite"], true);
    assert_eq!(it["folderId"], "f1");
    assert_eq!(it["notes"], "keep me");
    assert_eq!(it["login"]["uris"][0], "https://a");
    assert_eq!(b["folders"][0]["name"], "Pessoal");
    let antes = serde_json::to_string(&back(&v)["items"][0]).unwrap();
    assert!(!edit_login(&mut v, "não-existe", "n", "u", "p", ""));
    let depois = serde_json::to_string(&back(&v)["items"][0]).unwrap();
    assert_eq!(antes, depois);
}

#[test]
fn editar_item_sem_login_cria_o_login() {
    let mut v = parse(
        r#"{"version":1,"folders":[],"items":[{"id":"n1","kind":"note","name":"nota",
           "favorite":false,"folderId":null,"notes":"","createdAt":1,"updatedAt":1,"deletedAt":null}]}"#,
    );
    assert!(edit_login(&mut v, "n1", "nota", "u", "p", ""));
    let b = back(&v);
    assert_eq!(b["items"][0]["login"]["username"], "u");
    assert_eq!(b["items"][0]["login"]["uris"], serde_json::from_str::<Value>(r#"[""]"#).unwrap());
    assert_eq!(b["items"][0]["kind"], "note");
}

#[test]
fn exclusao_e_logica_e_some_da_view() {
    let mut v = vault_com_item();
    let id = back(&v)["items"][0]["id"].as_str().unwrap().to_string();
    assert!(delete_login(&mut v, &id));
    let b = back(&v);
    assert_eq!(b["items"].as_array().unwrap().len(), 1);
    assert!(b["items"][0]["deletedAt"].is_number());
    assert!(view(&v).is_empty());
    assert!(!delete_login(&mut v, "não-existe"));
}

#[test]
fn edit_then_read_gives_back_what_was_written() {
    let mut v = parse(EMPTY_VAULT);
    add_login_with(&mut v, "Site", "ana", "pw1", "id-1", 10, 11);
    assert!(edit_login_at(&mut v, "id-1", "Site2", "bia", "pw2", "TOTPKEY", 42));
    assert_eq!(
        login_triple(&v, "id-1"),
        Some(("bia".to_string(), "pw2".to_string(), "TOTPKEY".to_string()))
    );
    let b = back(&v);
    assert_eq!(b["items"][0]["updatedAt"], 42);
    assert_eq!(b["items"][0]["createdAt"], 10);
    assert_eq!(b["items"][0]["id"], "id-1");
}

#[test]
fn add_with_fixed_id_and_times_is_exact() {
    let mut v = parse(EMPTY_VAULT);
    add_login_with(&mut v, "N", "u", "p", "abc", -5, 1700000000000);
    let b = back(&v);
    let expected: Value = serde_json::from_str(
        r#"{"id":"abc","kind":"login","name":"N","favorite":false,"folderId":null,"notes":"",
            "createdAt":-5,"updatedAt":1700000000000,"deletedAt":null,
            "login":{"username":"u","password":"p","uris":[""],"totp":""}}"#,
    )
    .unwrap();
    assert_eq!(b["items"][0], expected);
    assert_eq!(b["version"], 1);
}

#[test]
fn add_makes_items_when_missing_or_not_an_array() {
    let mut v = Json::Null;
    add_login_with(&mut v, "N", "u", "p", "i", 1, 2);
    assert_eq!(back(&v)["items"].as_array().unwrap().len(), 1);
    let mut w = parse(r#"{"items":"bogus","keep":true}"#);
    add_login_with(&mut w, "N", "u", "p", "i", 1, 2);
    let b = back(&w);
    assert_eq!(b["items"].as_array().unwrap().len(), 1);
    assert_eq!(b["keep"], true);
}

#[test]
fn delete_stamps_and_keeps_the_rest() {
    let mut v = parse(EMPTY_VAULT);
    add_login_with(&mut v, "A", "u", "p", "a", 1, 1);
    add_login_with(&mut v, "B", "u2", "p2", "b", 1, 1);
    assert!(delete_login_at(&mut v, "b", 100, 101));
    let b = back(&v);
    assert_eq!(b["items"][1]["deletedAt"], 100);
    assert_eq!(b["items"][1]["updatedAt"], 101);
    assert_eq!(b["items"][1]["name"], "B");
    assert_eq!(b["items"][0]["deletedAt"], Value::Null);
    let rows = view(&v);
    assert_eq!(rows.len(), 1);
    assert_eq!(rows[0].id, "a");
}

#[test]
fn generated_ids_are_32_hex_digits() {
    let v = vault_com_item();
    let b = back(&v);
    let id = b["items"][0]["id"].as_str().unwrap();
    assert_eq!(id.len(), 32);
    assert!(id.chars().all(|c| c.is_ascii_digit() || ('a'..='f').contains(&c)));
}

#[test]
fn triple_skips_items_without_a_usable_login() {
    let v = parse(
        r#"{"items":[{"id":"d","login":{"username":1,"password":"x"}},
                     {"id":"d","login":{"username":"u","password":"p"}}]}"#,
    );
    assert_eq!(login_triple(&v, "d"), Some(("u".into(), "p".into(), String::new())));
    assert_eq!(login_triple(&parse(r#"{"items":{}}"#), "d"), None);
}

#[test]
fn list_search_and_new_master_checks() {
    let mut v = parse(EMPTY_VAULT);
    add_login_with(&mut v, "GitHub", "u", "p", "1", 1, 1);
    add_login_with(&mut v, "Banco", "u", "p", "2", 1, 1);
    let rows = view(&v);
    assert_eq!(lab_suite::vault::search_rows(&rows, " git"), vec![0]);
    assert_eq!(lab_suite::vault::search_rows(&rows, ""), vec![0, 1]);
    assert_eq!(check_new_master("", ""), Err("a senha mestra não pode ser vazia".to_string()));
    assert_eq!(check_new_master("a", "b"), Err("as senhas não conferem".to_string()));
    assert_eq!(check_new_master("a", "a"), Ok(()));
}

#[test]
fn saving_the_form() {
    let mut v = parse(EMPTY_VAULT);
    assert_eq!(save_entry_at(&mut v, None, "   ", "u", "p", "", "x", 5), SaveOutcome::Skipped);
    assert_eq!(back(&v)["items"].as_array().unwrap().len(), 0);
    assert_eq!(save_entry_at(&mut v, None, " Site ", "u", "p", " KEY ", "x", 5), SaveOutcome::Saved);
    let b = back(&v);
    assert_eq!(b["items"][0]["name"], "Site");
    assert_eq!(b["items"][0]["login"]["totp"], "KEY");
    assert_eq!(save_entry_at(&mut v, Some("x"), "Novo", "u2", "p2", "", "ignored", 6), SaveOutcome::Saved);
    assert_eq!(login_triple(&v, "x"), Some(("u2".into(), "p2".into(), String::new())));
    assert_eq!(save_entry_at(&mut v, Some("nope"), "N", "u", "p", "", "y", 7), SaveOutcome::NotFound);
}
