//! The native entry points of a hook: which adapters to generate for a
//! function of the application, and what to bind them to.
//!
//! A hook is a function that the application declares with one of two
//! shapes: it fetches the pending notifications, or it modifies an incoming
//! push notification. For a declared hook the generator decides, once and at
//! build time, the Android binding and the iOS exports that call it. Turning
//! that decision into tokens is left to the attribute that runs the
//! generator.

use vstd::prelude::*;

verus! {

/// The first part of the package path of the native service.
pub const SERVICE_DOMAIN: &'static str = "app_tauri";

/// The second part of the package path of the native service.
pub const SERVICE_PACKAGE: &'static str = "notification";

/// The class of the native service: the adapters are bound to the methods of
/// `app_tauri.notification.PushNotificationsService`.
pub const SERVICE_CLASS: &'static str = "PushNotificationsService";

/// The method of the service that fetches the pending notifications.
pub const FETCH_METHOD: &'static str = "fetchpendingnotifications";

/// The method of the service that modifies an incoming push notification.
pub const MODIFY_METHOD: &'static str = "modifypushnotification";

/// The two shapes of a hook.
#[derive(Debug, Clone, Copy, PartialEq, Eq, Structural)]
pub enum HookShape {
    /// `() -> [NotificationData]`: the pending notifications.
    Fetch,
    /// `(NotificationData) -> NotificationData`: an incoming push
    /// notification, modified.
    Modify,
}

/// The Java types that an Android entry point takes and returns.
#[derive(Debug, Clone, Copy, PartialEq, Eq, Structural)]
pub enum JavaType {
    Object,
    String,
    ObjectArray,
}

/// The Android entry point of a hook: a native method of the notification
/// service, bound by these names.
#[derive(Debug, Clone, PartialEq, Eq)]
pub struct AndroidAdapter {
    pub domain: &'static str,
    pub package: &'static str,
    pub class: &'static str,
    pub method: &'static str,
    pub argument: JavaType,
    pub result: JavaType,
    /// The function of the application that the method calls.
    pub hook: String,
}

/// The iOS entry points of a hook: the C symbols to export.
#[derive(Debug, Clone, PartialEq, Eq)]
pub struct IosAdapter {
    pub symbols: Vec<&'static str>,
    /// The function of the application that the exports call.
    pub hook: String,
}

/// What is generated for a declared hook.
#[derive(Debug, Clone, PartialEq, Eq)]
pub struct Adapters {
    pub shape: HookShape,
    pub android: AndroidAdapter,
    pub ios: IosAdapter,
    /// The declaration itself, which is emitted unchanged after the
    /// adapters.
    pub item: String,
}

/// Why nothing is generated.
#[derive(Debug, Clone, PartialEq, Eq)]
pub enum GeneratorError {
    /// The attribute is not on a function; the text is the parser's
    /// message.
    NotAFunction(String),
}

/// Parses a text as a function item with `syn::parse_str` and takes the
/// name from its signature: what the identifier displays as, or else what
/// the parse error displays as.
///
/// Trusted, and nothing is claimed of the outcome. The text is lexed by
/// `proc_macro2`, which inside a procedural macro hands it to the compiler's
/// lexer as well, so what comes back for a text can differ between
/// processes; a panic of that lexer is caught there and comes back as an
/// error.
#[verifier::external_body]
fn parse_function(source: &str) -> (parsed: Result<String, String>) {
    match syn::parse_str::<syn::ItemFn>(source) {
        Ok(item) => Ok(item.sig.ident.to_string()),
        Err(error) => Err(error.to_string()),
    }
}

/// The method of the service that a hook of a shape is bound to.
pub open spec fn method_of(shape: HookShape) -> Seq<char> {
    match shape {
        HookShape::Fetch => FETCH_METHOD@,
        HookShape::Modify => MODIFY_METHOD@,
    }
}

/// The Java type that the method of a shape takes.
pub open spec fn argument_of(shape: HookShape) -> JavaType {
    match shape {
        HookShape::Fetch => JavaType::Object,
        HookShape::Modify => JavaType::String,
    }
}

/// The Java type that the method of a shape returns: an array of strings,
/// one for each record, or one string.
pub open spec fn result_of(shape: HookShape) -> JavaType {
    match shape {
        HookShape::Fetch => JavaType::ObjectArray,
        HookShape::Modify => JavaType::String,
    }
}

/// The C symbols that are exported for a hook of a shape: the four
/// operations on a modified notification, or none.
pub open spec fn symbols_of(shape: HookShape) -> Seq<Seq<char>> {
    match shape {
        HookShape::Fetch => Seq::empty(),
        HookShape::Modify => seq![
            "notification_destroy"@,
            "notification_title"@,
            "notification_body"@,
            "modify_notification"@,
        ],
    }
}

/// The texts of a list of symbols.
pub open spec fn symbol_texts(symbols: Seq<&'static str>) -> Seq<Seq<char>> {
    Seq::new(symbols.len(), |i: int| symbols[i]@)
}

/// Whether the adapters are those of a hook of the given shape and name,
/// declared by the given text.
pub open spec fn adapters_for(
    adapters: Adapters,
    shape: HookShape,
    name: Seq<char>,
    source: Seq<char>,
) -> bool {
    &&& adapters.shape == shape
    &&& adapters.android.domain@ == SERVICE_DOMAIN@
    &&& adapters.android.package@ == SERVICE_PACKAGE@
    &&& adapters.android.class@ == SERVICE_CLASS@
    &&& adapters.android.method@ == method_of(shape)
    &&& adapters.android.argument == argument_of(shape)
    &&& adapters.android.result == result_of(shape)
    &&& adapters.android.hook@ == name
    &&& symbol_texts(adapters.ios.symbols@) == symbols_of(shape)
    &&& adapters.ios.hook@ == name
    &&& adapters.item@ == source
}

/// The adapters of a hook of a shape and a name.
pub fn adapters(shape: HookShape, name: &str, source: &str) -> (generated: Adapters)
    ensures
        adapters_for(generated, shape, name@, source@),
{
    let android = match shape {
        HookShape::Fetch => AndroidAdapter {
            domain: SERVICE_DOMAIN,
            package: SERVICE_PACKAGE,
            class: SERVICE_CLASS,
            method: FETCH_METHOD,
            argument: JavaType::Object,
            result: JavaType::ObjectArray,
            hook: name.to_owned(),
        },
        HookShape::Modify => AndroidAdapter {
            domain: SERVICE_DOMAIN,
            package: SERVICE_PACKAGE,
            class: SERVICE_CLASS,
            method: MODIFY_METHOD,
            argument: JavaType::String,
            result: JavaType::String,
            hook: name.to_owned(),
        },
    };
    let mut symbols: Vec<&'static str> = Vec::new();
    match shape {
        HookShape::Fetch => {},
        HookShape::Modify => {
            symbols.push("notification_destroy");
            symbols.push("notification_title");
            symbols.push("notification_body");
            symbols.push("modify_notification");
        },
    }
    assert(symbol_texts(symbols@) =~= symbols_of(shape));
    let ios = IosAdapter { symbols, hook: name.to_owned() };
    Adapters { shape, android, ios, item: source.to_owned() }
}

/// What is generated for a text of a shape, given what the parser made of
/// the text.
pub fn generate_from(shape: HookShape, parsed: Result<String, String>, source: &str) -> (generated:
    Result<Adapters, GeneratorError>)
    ensures
        match parsed {
            Ok(name) => generated matches Ok(a) && adapters_for(a, shape, name@, source@),
            Err(message) => generated matches Err(GeneratorError::NotAFunction(m)) && m@
                == message@,
        },
{
    match parsed {
        Ok(name) => Ok(adapters(shape, name.as_str(), source)),
        Err(message) => Err(GeneratorError::NotAFunction(message)),
    }
}

/// What is generated for a text of a shape. The text is handed to the
/// parser unchanged, and [`generate_from`] decides on what the parser made
/// of it: adapters for the name that it found, or its message.
pub fn generate(shape: HookShape, source: &str) -> (generated: Result<Adapters, GeneratorError>)
    ensures
        generated matches Ok(a) ==> exists|name: Seq<char>| adapters_for(a, shape, name, source@),
        generated is Err ==> generated matches Err(GeneratorError::NotAFunction(_)),
{
    let parsed = parse_function(source);
    let generated = generate_from(shape, parsed, source);
    proof {
        if generated is Ok {
            assert(adapters_for(generated->Ok_0, shape, parsed->Ok_0@, source@));
        }
    }
    generated
}

/// The adapters of a hook that modifies an incoming push notification: the
/// Android method `modifypushnotification`, from a Java string to a Java
/// string, and the four C symbols of iOS.
pub fn modify_push_notification(input: &str) -> (generated: Result<Adapters, GeneratorError>)
    ensures
        generated matches Ok(a) ==> exists|name: Seq<char>|
            adapters_for(a, HookShape::Modify, name, input@),
        generated is Err ==> generated matches Err(GeneratorError::NotAFunction(_)),
{
    generate(HookShape::Modify, input)
}

/// The adapters of a hook that fetches the pending notifications: the
/// Android method `fetchpendingnotifications`, which returns an array of
/// Java strings.
pub fn fetch_pending_notifications(input: &str) -> (generated: Result<Adapters, GeneratorError>)
    ensures
        generated matches Ok(a) ==> exists|name: Seq<char>|
            adapters_for(a, HookShape::Fetch, name, input@),
        generated is Err ==> generated matches Err(GeneratorError::NotAFunction(_)),
{
    generate(HookShape::Fetch, input)
}

} // verus!
