//! Reading of Thrift service descriptions: services, methods and annotations.

use crate::pattern::{
    captures, captures_iter, replace_all, ANNOTATION_PATTERN, COMMENT_PATTERN,
    COMMENT_REPLACEMENT, METHOD_PATTERN, NAMESPACE_PATTERN, SERVICE_PATTERN,
};
use crate::string_map::StringMap;
use crate::text::join3;
use vstd::prelude::*;

verus! {

/// What is known of a method.
#[derive(Debug)]
pub struct MethodConfiguration {
    /// The type that the method returns, as it is written.
    pub return_type: String,
    /// The annotations behind the method's parameters.
    pub annotations: StringMap<String>,
}

/// A service: its methods by their names.
#[derive(Debug)]
pub struct Service {
    pub methods: StringMap<MethodConfiguration>,
}

/// The model of a method.
#[verifier::ext_equal]
pub struct MethodModel {
    pub return_type: Seq<char>,
    pub annotations: Map<Seq<char>, Seq<char>>,
}

/// The model of a service's methods.
pub type Methods = Map<Seq<char>, MethodModel>;

/// The model of the services of a description.
pub type Services = Map<Seq<char>, Methods>;

impl View for MethodConfiguration {
    type V = MethodModel;

    open spec fn view(&self) -> MethodModel {
        MethodModel { return_type: self.return_type@, annotations: self.annotations@ }
    }
}

impl View for Service {
    type V = Methods;

    open spec fn view(&self) -> Methods {
        self.methods@
    }
}

// ---------------------------------------------------------------------------
// What a description says
// ---------------------------------------------------------------------------
/// The annotations that a sequence of matches (key, value) gives: of two with
/// the same key the later one counts.
pub open spec fn annotations_of(found: Seq<Seq<Option<Seq<char>>>>) -> Map<Seq<char>, Seq<char>>
    decreases found.len(),
{
    if found.len() == 0 {
        Map::empty()
    } else {
        let before = annotations_of(found.drop_last());
        match (found.last()[0], found.last()[1]) {
            (Some(key), Some(value)) => before.insert(key, value),
            _ => before,
        }
    }
}

/// The annotations in a text.
pub open spec fn annotations_in(text: Seq<char>) -> Map<Seq<char>, Seq<char>> {
    annotations_of(crate::annotations::annotation_matches(text))
}

/// A method's annotations: none where the method has no list of them.
pub open spec fn method_annotations(list: Option<Seq<char>>) -> Map<Seq<char>, Seq<char>> {
    match list {
        Some(text) => annotations_in(text),
        None => Map::empty(),
    }
}

/// Methods together with one more, in place of an earlier one of that name.
pub open spec fn with_method(
    methods: Methods,
    return_type: Option<Seq<char>>,
    method_name: Option<Seq<char>>,
    annotations: Map<Seq<char>, Seq<char>>,
) -> Result<Methods, Seq<char>> {
    match (return_type, method_name) {
        (None, _) => Err("Return type not found"@),
        (Some(_), None) => Err("Method name not found"@),
        (Some(written), Some(name)) => Ok(
            methods.insert(name, MethodModel { return_type: written, annotations }),
        ),
    }
}

/// The methods that a sequence of matches (return type, name, annotations) gives,
/// with the annotations read for each.
pub open spec fn methods_of(
    found: Seq<Seq<Option<Seq<char>>>>,
    annotations: Seq<Map<Seq<char>, Seq<char>>>,
) -> Result<Methods, Seq<char>>
    decreases found.len(),
{
    if found.len() == 0 {
        Ok(Map::empty())
    } else {
        match methods_of(found.drop_last(), annotations.drop_last()) {
            Err(error) => Err(error),
            Ok(methods) => with_method(
                methods,
                found.last()[0],
                found.last()[1],
                annotations.last(),
            ),
        }
    }
}

/// The annotations of each of a sequence of matches (return type, name,
/// annotations).
pub open spec fn annotations_of_each(found: Seq<Seq<Option<Seq<char>>>>) -> Seq<
    Map<Seq<char>, Seq<char>>,
> {
    Seq::new(found.len(), |i: int| method_annotations(found[i][2]))
}

/// The matches for methods in the body of a service.
pub open spec fn method_matches(body: Seq<char>) -> Seq<Seq<Option<Seq<char>>>> {
    crate::pattern::regex_captures_iter(
        METHOD_PATTERN@,
        seq!["return_type"@, "method_name"@, "annotations"@],
        body,
    )
}

/// The methods in the body of a service.
pub open spec fn methods_in(body: Seq<char>) -> Result<Methods, Seq<char>> {
    methods_of(method_matches(body), annotations_of_each(method_matches(body)))
}

/// The name under which a service is found: that of its namespace, a dot, and
/// its own.
pub open spec fn qualified_name(namespace: Seq<char>, service: Seq<char>) -> Seq<char> {
    namespace + "."@ + service
}

/// Services together with one more, in place of an earlier one of that name.
pub open spec fn with_service(
    services: Services,
    namespace: Seq<char>,
    service_name: Option<Seq<char>>,
    service_body: Option<Seq<char>>,
    methods: Result<Methods, Seq<char>>,
) -> Result<Services, Seq<char>> {
    match (service_name, service_body, methods) {
        (None, _, _) => Err("Service name not found"@),
        (Some(_), None, _) => Err("Service body not found"@),
        (Some(_), Some(_), Err(error)) => Err(error),
        (Some(name), Some(_), Ok(methods)) => Ok(
            services.insert(qualified_name(namespace, name), methods),
        ),
    }
}

/// The services that a sequence of matches (name, body) gives, with the methods
/// read from each body.
pub open spec fn services_of(
    namespace: Seq<char>,
    found: Seq<Seq<Option<Seq<char>>>>,
    methods: Seq<Result<Methods, Seq<char>>>,
) -> Result<Services, Seq<char>>
    decreases found.len(),
{
    if found.len() == 0 {
        Ok(Map::empty())
    } else {
        match services_of(namespace, found.drop_last(), methods.drop_last()) {
            Err(error) => Err(error),
            Ok(services) => with_service(
                services,
                namespace,
                found.last()[0],
                found.last()[1],
                methods.last(),
            ),
        }
    }
}

/// The methods in the body that a match gave; where it gave none, no methods.
pub open spec fn body_methods(body: Option<Seq<char>>) -> Result<Methods, Seq<char>> {
    match body {
        Some(text) => methods_in(text),
        None => Ok(Map::empty()),
    }
}

/// The methods of each of a sequence of matches (name, body).
pub open spec fn methods_of_each(found: Seq<Seq<Option<Seq<char>>>>) -> Seq<
    Result<Methods, Seq<char>>,
> {
    Seq::new(found.len(), |i: int| body_methods(found[i][1]))
}

/// The namespace that a description declares.
pub open spec fn namespace_in(content: Seq<char>) -> Option<Seq<char>> {
    match crate::pattern::regex_captures(NAMESPACE_PATTERN@, seq!["namespace"@], content) {
        Some(groups) => groups[0],
        None => None,
    }
}

/// The matches for services in a text.
pub open spec fn service_matches(content: Seq<char>) -> Seq<Seq<Option<Seq<char>>>> {
    crate::pattern::regex_captures_iter(
        SERVICE_PATTERN@,
        seq!["service_name"@, "service_body"@],
        content,
    )
}

/// The services in a text that declares a namespace.
pub open spec fn services_in(namespace: Seq<char>, content: Seq<char>) -> Result<
    Services,
    Seq<char>,
> {
    services_of(namespace, service_matches(content), methods_of_each(service_matches(content)))
}

/// What a description says: its services, or why it is not accepted.
pub open spec fn thrift_services(description: Seq<char>) -> Result<Services, Seq<char>> {
    let content = crate::comments::without_comments(description);
    match namespace_in(content) {
        None => Err("Namespace not found"@),
        Some(namespace) => services_in(namespace, content),
    }
}

/// The model of methods that were read, or of why they were not.
pub open spec fn methods_outcome(
    outcome: Result<StringMap<MethodConfiguration>, String>,
) -> Result<Methods, Seq<char>> {
    match outcome {
        Ok(methods) => Ok(methods@),
        Err(error) => Err(error@),
    }
}

/// The model of services that were read, or of why they were not.
pub open spec fn services_outcome(outcome: Result<StringMap<Service>, String>) -> Result<
    Services,
    Seq<char>,
> {
    match outcome {
        Ok(services) => Ok(services@),
        Err(error) => Err(error@),
    }
}

/// The models of several dictionaries of annotations.
pub open spec fn annotation_maps(held: Seq<StringMap<String>>) -> Seq<Map<Seq<char>, Seq<char>>> {
    Seq::new(held.len(), |i: int| held[i]@)
}

/// The models of what was read from several bodies.
pub open spec fn methods_outcomes(
    held: Seq<Result<StringMap<MethodConfiguration>, String>>,
) -> Seq<Result<Methods, Seq<char>>> {
    Seq::new(held.len(), |i: int| methods_outcome(held[i]))
}

// ---------------------------------------------------------------------------
// Reading it
// ---------------------------------------------------------------------------
/// The dictionary of annotations that matches (key, value) give.
pub fn collect_annotations(found: &Vec<Vec<Option<String>>>) -> (annotations: StringMap<String>)
    requires
        forall|i: int| 0 <= i < found@.len() ==> (#[trigger] found@[i])@.len() == 2,
    ensures
        annotations@ == annotations_of(crate::pattern::matches_of(found@)),
{
    let mut annotations: StringMap<String> = StringMap::new();
    let ghost all = crate::pattern::matches_of(found@);
    let mut i: usize = 0;
    while i < found.len()
        invariant
            i <= found@.len(),
            all == crate::pattern::matches_of(found@),
            forall|k: int| 0 <= k < found@.len() ==> (#[trigger] found@[k])@.len() == 2,
            annotations@ == annotations_of(all.take(i as int)),
        decreases found@.len() - i,
    {
        let captured = &found[i];
        proof {
            assert(all.take(i + 1).drop_last() =~= all.take(i as int));
            assert(all.take(i + 1).last() == crate::pattern::groups_of(captured@));
        }
        if let (Some(key), Some(value)) = (&captured[0], &captured[1]) {
            annotations.insert(key.clone(), value.clone());
        }
        i = i + 1;
    }
    assert(all.take(i as int) =~= all);
    annotations
}

/// Reads annotations from a text such as `scope="read" role="chef"`.
pub fn parse_annotations(annotation_str: &str) -> (annotations: StringMap<String>)
    ensures
        annotations@ == annotations_in(annotation_str@),
{
    let groups: Vec<&str> = vec!["key", "value"];
    assert(crate::pattern::names_of(groups@) =~= seq!["key"@, "value"@]);
    let found = captures_iter(ANNOTATION_PATTERN, &groups, annotation_str);
    collect_annotations(&found)
}

/// Adds a method to those read so far, in place of an earlier one of that name.
pub fn add_method(
    methods: &mut StringMap<MethodConfiguration>,
    return_type: Option<String>,
    method_name: Option<String>,
    annotations: StringMap<String>,
) -> (added: Result<(), String>)
    ensures
        match with_method(
            old(methods)@,
            crate::pattern::text_of(return_type),
            crate::pattern::text_of(method_name),
            annotations@,
        ) {
            Ok(after) => added is Ok && final(methods)@ == after,
            Err(error) => added is Err && added->Err_0@ == error && *final(methods) == *old(methods),
        },
{
    match return_type {
        None => Err("Return type not found".to_owned()),
        Some(return_type) => match method_name {
            None => Err("Method name not found".to_owned()),
            Some(method_name) => {
                methods.insert(method_name, MethodConfiguration { return_type, annotations });
                Ok(())
            },
        },
    }
}

/// Where a front part of the matches gives an error, all of them give it.
proof fn lemma_methods_error(
    found: Seq<Seq<Option<Seq<char>>>>,
    annotations: Seq<Map<Seq<char>, Seq<char>>>,
    count: int,
)
    requires
        0 <= count <= found.len(),
        annotations.len() == found.len(),
        methods_of(found.take(count), annotations.take(count)) is Err,
    ensures
        methods_of(found, annotations) == methods_of(found.take(count), annotations.take(count)),
    decreases found.len(),
{
    if count == found.len() {
        assert(found.take(count) =~= found);
        assert(annotations.take(count) =~= annotations);
    } else {
        assert(found.drop_last().take(count) =~= found.take(count));
        assert(annotations.drop_last().take(count) =~= annotations.take(count));
        lemma_methods_error(found.drop_last(), annotations.drop_last(), count);
    }
}

/// Where every match gives a return type and a name, there is no error.
proof fn lemma_methods_read(
    found: Seq<Seq<Option<Seq<char>>>>,
    annotations: Seq<Map<Seq<char>, Seq<char>>>,
)
    requires
        forall|i: int| 0 <= i < found.len() ==> (#[trigger] found[i])[0] is Some,
        forall|i: int| 0 <= i < found.len() ==> (#[trigger] found[i])[1] is Some,
    ensures
        methods_of(found, annotations) is Ok,
    decreases found.len(),
{
    if found.len() > 0 {
        lemma_methods_read(found.drop_last(), annotations.drop_last());
        assert(found.last() == found[found.len() - 1]);
    }
}

/// The methods that matches (return type, name, annotations) give, with the
/// annotations read for each: an error for the first match without a return type
/// or without a name.
pub fn collect_methods(
    found: &Vec<Vec<Option<String>>>,
    annotations: Vec<StringMap<String>>,
) -> (collected: Result<StringMap<MethodConfiguration>, String>)
    requires
        forall|i: int| 0 <= i < found@.len() ==> (#[trigger] found@[i])@.len() == 3,
        annotations@.len() == found@.len(),
    ensures
        methods_outcome(collected) == methods_of(
            crate::pattern::matches_of(found@),
            annotation_maps(annotations@),
        ),
        match methods_of(
            crate::pattern::matches_of(found@),
            annotation_maps(annotations@),
        ) {
            Ok(methods) => collected is Ok && collected->Ok_0@ == methods,
            Err(error) => collected is Err && collected->Err_0@ == error,
        },
{
    let ghost all = crate::pattern::matches_of(found@);
    let ghost held = annotation_maps(annotations@);
    let mut left: Vec<StringMap<String>> = annotations;
    let mut methods: StringMap<MethodConfiguration> = StringMap::new();
    let mut i: usize = 0;
    while i < found.len()
        invariant
            i <= found@.len(),
            all == crate::pattern::matches_of(found@),
            forall|k: int| 0 <= k < found@.len() ==> (#[trigger] found@[k])@.len() == 3,
            held == annotation_maps(annotations@),
            held.len() == found@.len(),
            annotation_maps(left@) == held.skip(i as int),
            methods_of(all.take(i as int), held.take(i as int)) == Ok::<Methods, Seq<char>>(
                methods@,
            ),
        decreases found@.len() - i,
    {
        let captured = &found[i];
        assert(annotation_maps(left@).len() == left@.len());
        assert(annotation_maps(left@)[0] == held[i as int]);
        let ghost before = left@;
        let next = left.remove(0);
        proof {
            assert(all.take(i + 1).drop_last() =~= all.take(i as int));
            assert(all.take(i + 1).last() == crate::pattern::groups_of(captured@));
            assert(held.take(i + 1).drop_last() =~= held.take(i as int));
            assert(held.take(i + 1).last() == next@);
            assert(annotation_maps(left@) =~= held.skip(i + 1)) by {
                assert forall|k: int| 0 <= k < left@.len() implies annotation_maps(left@)[k]
                    == held.skip(i + 1)[k] by {
                    assert(left@[k] == before[k + 1]);
                    assert(annotation_maps(before)[k + 1] == held.skip(i as int)[k + 1]);
                }
            }
        }
        match add_method(&mut methods, captured[0].clone(), captured[1].clone(), next) {
            Ok(()) => {},
            Err(error) => {
                proof {
                    lemma_methods_error(all, held, i + 1);
                }
                return Err(error);
            },
        }
        i = i + 1;
    }
    assert(all.take(i as int) =~= all);
    assert(held.take(i as int) =~= held);
    Ok(methods)
}

/// Reads the methods in the body of a service.
fn parse_methods(service_body: &str) -> (parsed: Result<StringMap<MethodConfiguration>, String>)
    ensures
        methods_outcome(parsed) == methods_in(service_body@),
        parsed is Ok,
        methods_in(service_body@) is Ok && parsed->Ok_0@ == methods_in(service_body@)->Ok_0,
{
    let groups: Vec<&str> = vec!["return_type", "method_name", "annotations"];
    assert(crate::pattern::names_of(groups@) =~= seq![
        "return_type"@,
        "method_name"@,
        "annotations"@,
    ]);
    let found = captures_iter(METHOD_PATTERN, &groups, service_body);
    let mut annotations: Vec<StringMap<String>> = Vec::new();
    let ghost all = crate::pattern::matches_of(found@);
    let mut i: usize = 0;
    while i < found.len()
        invariant
            i <= found@.len(),
            all == crate::pattern::matches_of(found@),
            forall|k: int| 0 <= k < found@.len() ==> (#[trigger] found@[k])@.len() == 3,
            annotation_maps(annotations@) == annotations_of_each(all).take(i as int),
        decreases found@.len() - i,
    {
        let ghost before = annotations@;
        let read: StringMap<String> = match &found[i][2] {
            Some(list) => parse_annotations(list.as_str()),
            None => StringMap::new(),
        };
        assert(all[i as int] == crate::pattern::groups_of(found@[i as int]@));
        annotations.push(read);
        proof {
            assert(annotation_maps(before).len() == before.len());
            assert(annotation_maps(annotations@) =~= annotation_maps(before).push(read@));
            assert(annotations_of_each(all).take(i + 1) =~= annotations_of_each(all).take(
                i as int,
            ).push(annotations_of_each(all)[i as int]));
        }
        i = i + 1;
    }
    proof {
        assert(annotations_of_each(all).take(i as int) =~= annotations_of_each(all));
        assert(annotation_maps(annotations@).len() == annotations@.len());
        assert forall|k: int| 0 <= k < all.len() implies (#[trigger] all[k])[0] is Some
            && all[k][1] is Some by {
            assert(found@[k]@[0] is Some && found@[k]@[1] is Some);
        }
        lemma_methods_read(all, annotations_of_each(all));
    }
    collect_methods(&found, annotations)
}

/// Adds a service to those read so far, in place of an earlier one of that name.
pub fn add_service(
    services: &mut StringMap<Service>,
    namespace: &str,
    service_name: &str,
    methods: StringMap<MethodConfiguration>,
)
    ensures
        final(services)@ == old(services)@.insert(
            qualified_name(namespace@, service_name@),
            methods@,
        ),
{
    services.insert(join3(namespace, ".", service_name), Service { methods });
}

/// Where a front part of the matches gives an error, all of them give it.
proof fn lemma_services_error(
    namespace: Seq<char>,
    found: Seq<Seq<Option<Seq<char>>>>,
    methods: Seq<Result<Methods, Seq<char>>>,
    count: int,
)
    requires
        0 <= count <= found.len(),
        methods.len() == found.len(),
        services_of(namespace, found.take(count), methods.take(count)) is Err,
    ensures
        services_of(namespace, found, methods) == services_of(
            namespace,
            found.take(count),
            methods.take(count),
        ),
    decreases found.len(),
{
    if count == found.len() {
        assert(found.take(count) =~= found);
        assert(methods.take(count) =~= methods);
    } else {
        assert(found.drop_last().take(count) =~= found.take(count));
        assert(methods.drop_last().take(count) =~= methods.take(count));
        lemma_services_error(namespace, found.drop_last(), methods.drop_last(), count);
    }
}

/// Where every match gives a name and a body, and every body was read, there is
/// no error.
proof fn lemma_services_read(
    namespace: Seq<char>,
    found: Seq<Seq<Option<Seq<char>>>>,
    methods: Seq<Result<Methods, Seq<char>>>,
)
    requires
        methods.len() == found.len(),
        forall|i: int| 0 <= i < found.len() ==> (#[trigger] found[i])[0] is Some,
        forall|i: int| 0 <= i < found.len() ==> (#[trigger] found[i])[1] is Some,
        forall|i: int| 0 <= i < methods.len() ==> (#[trigger] methods[i]) is Ok,
    ensures
        services_of(namespace, found, methods) is Ok,
    decreases found.len(),
{
    if found.len() > 0 {
        lemma_services_read(namespace, found.drop_last(), methods.drop_last());
        assert(found.last() == found[found.len() - 1]);
        assert(methods.last() == methods[methods.len() - 1]);
    }
}

/// The services that matches (name, body) give, with the methods read from each
/// body: an error for the first match without a name, without a body, or whose
/// body was not read.
pub fn collect_services(
    namespace: &str,
    found: &Vec<Vec<Option<String>>>,
    methods: Vec<Result<StringMap<MethodConfiguration>, String>>,
) -> (collected: Result<StringMap<Service>, String>)
    requires
        forall|i: int| 0 <= i < found@.len() ==> (#[trigger] found@[i])@.len() == 2,
        methods@.len() == found@.len(),
    ensures
        services_outcome(collected) == services_of(
            namespace@,
            crate::pattern::matches_of(found@),
            methods_outcomes(methods@),
        ),
        match services_of(
            namespace@,
            crate::pattern::matches_of(found@),
            methods_outcomes(methods@),
        ) {
            Ok(services) => collected is Ok && collected->Ok_0@ == services,
            Err(error) => collected is Err && collected->Err_0@ == error,
        },
{
    let ghost all = crate::pattern::matches_of(found@);
    let ghost held = methods_outcomes(methods@);
    let mut left: Vec<Result<StringMap<MethodConfiguration>, String>> = methods;
    let mut services: StringMap<Service> = StringMap::new();
    let mut i: usize = 0;
    while i < found.len()
        invariant
            i <= found@.len(),
            all == crate::pattern::matches_of(found@),
            forall|k: int| 0 <= k < found@.len() ==> (#[trigger] found@[k])@.len() == 2,
            held == methods_outcomes(methods@),
            held.len() == found@.len(),
            methods_outcomes(left@) == held.skip(i as int),
            services_of(namespace@, all.take(i as int), held.take(i as int)) == Ok::<
                Services,
                Seq<char>,
            >(services@),
        decreases found@.len() - i,
    {
        let captured = &found[i];
        assert(methods_outcomes(left@).len() == left@.len());
        assert(methods_outcomes(left@)[0] == held[i as int]);
        let ghost before = left@;
        let next = left.remove(0);
        proof {
            assert(all.take(i + 1).drop_last() =~= all.take(i as int));
            assert(all.take(i + 1).last() == crate::pattern::groups_of(captured@));
            assert(held.take(i + 1).drop_last() =~= held.take(i as int));
            assert(held.take(i + 1).last() == methods_outcome(next));
            assert(methods_outcomes(left@) =~= held.skip(i + 1)) by {
                assert forall|k: int| 0 <= k < left@.len() implies methods_outcomes(left@)[k]
                    == held.skip(i + 1)[k] by {
                    assert(left@[k] == before[k + 1]);
                    assert(methods_outcomes(before)[k + 1] == held.skip(i as int)[k + 1]);
                }
            }
            if services_of(namespace@, all.take(i + 1), held.take(i + 1)) is Err {
                lemma_services_error(namespace@, all, held, i + 1);
            }
        }
        let service_name: &String = match &captured[0] {
            Some(service_name) => service_name,
            None => {
                return Err("Service name not found".to_owned());
            },
        };
        if captured[1].is_none() {
            return Err("Service body not found".to_owned());
        }
        match next {
            Ok(methods) => {
                add_service(&mut services, namespace, service_name.as_str(), methods);
            },
            Err(error) => {
                return Err(error);
            },
        }
        i = i + 1;
    }
    assert(all.take(i as int) =~= all);
    assert(held.take(i as int) =~= held);
    Ok(services)
}

/// Reads a service description: its services with their methods and the
/// annotations of these.
///
/// Comments are left out first; two slashes in a quoted literal begin none. Each
/// service is found under the name of the namespace, a dot, and its own name. A
/// description that declares no namespace is not accepted, and no other is refused.
pub fn parse_thrift(file_contents: &str) -> (parsed: Result<StringMap<Service>, String>)
    ensures
        services_outcome(parsed) == thrift_services(file_contents@),
        match thrift_services(file_contents@) {
            Ok(services) => parsed is Ok && parsed->Ok_0@ == services,
            Err(error) => parsed is Err && parsed->Err_0@ == error,
        },
        parsed is Err <==> namespace_in(crate::comments::without_comments(file_contents@)) is None,
        parsed is Err ==> parsed->Err_0@ == "Namespace not found"@,
{
    let content: String = replace_all(COMMENT_PATTERN, file_contents, COMMENT_REPLACEMENT);

    let namespace_group: Vec<&str> = vec!["namespace"];
    assert(crate::pattern::names_of(namespace_group@) =~= seq!["namespace"@]);
    let namespace: Option<String> = match captures(
        NAMESPACE_PATTERN,
        &namespace_group,
        content.as_str(),
    ) {
        Some(captured) => captured[0].clone(),
        None => None,
    };
    let namespace: String = match namespace {
        Some(namespace) => namespace,
        None => {
            return Err("Namespace not found".to_owned());
        },
    };

    let groups: Vec<&str> = vec!["service_name", "service_body"];
    assert(crate::pattern::names_of(groups@) =~= seq!["service_name"@, "service_body"@]);
    let found = captures_iter(SERVICE_PATTERN, &groups, content.as_str());
    let mut methods: Vec<Result<StringMap<MethodConfiguration>, String>> = Vec::new();
    let ghost all = crate::pattern::matches_of(found@);
    let mut i: usize = 0;
    while i < found.len()
        invariant
            i <= found@.len(),
            all == crate::pattern::matches_of(found@),
            forall|k: int| 0 <= k < found@.len() ==> (#[trigger] found@[k])@.len() == 2,
            methods_outcomes(methods@) == methods_of_each(all).take(i as int),
            forall|k: int| 0 <= k < methods@.len() ==> (#[trigger] methods@[k]) is Ok,
        decreases found@.len() - i,
    {
        let ghost before = methods@;
        let read: Result<StringMap<MethodConfiguration>, String> = match &found[i][1] {
            Some(service_body) => parse_methods(service_body.as_str()),
            None => Ok(StringMap::new()),
        };
        assert(all[i as int] == crate::pattern::groups_of(found@[i as int]@));
        methods.push(read);
        proof {
            assert(methods_outcomes(before).len() == before.len());
            assert(methods_outcomes(methods@) =~= methods_outcomes(before).push(
                methods_outcome(read),
            ));
            assert(methods_of_each(all).take(i + 1) =~= methods_of_each(all).take(i as int).push(
                methods_of_each(all)[i as int],
            ));
        }
        i = i + 1;
    }
    proof {
        assert(methods_of_each(all).take(i as int) =~= methods_of_each(all));
        assert(methods_outcomes(methods@).len() == methods@.len());
        assert forall|k: int| 0 <= k < all.len() implies (#[trigger] all[k])[0] is Some
            && all[k][1] is Some by {
            assert(found@[k]@[0] is Some && found@[k]@[1] is Some);
        }
        assert forall|k: int| 0 <= k < all.len() implies (#[trigger] methods_of_each(
            all,
        )[k]) is Ok by {
            assert(methods_outcomes(methods@)[k] == methods_outcome(methods@[k]));
        }
        lemma_services_read(namespace@, all, methods_of_each(all));
    }
    collect_services(namespace.as_str(), &found, methods)
}

// ---------------------------------------------------------------------------
// Laws
// ---------------------------------------------------------------------------
/// Of two annotations with one key the later counts; others are not touched.
pub proof fn law_later_annotation_counts(
    found: Seq<Seq<Option<Seq<char>>>>,
    key: Seq<char>,
    value: Seq<char>,
)
    ensures
        annotations_of(found.push(seq![Some(key), Some(value)])) == annotations_of(found).insert(
            key,
            value,
        ),
{
    assert(found.push(seq![Some(key), Some(value)]).drop_last() =~= found);
}

/// Of two methods with one name the later counts; others are not touched.
pub proof fn law_later_method_counts(
    found: Seq<Seq<Option<Seq<char>>>>,
    before: Seq<Map<Seq<char>, Seq<char>>>,
    return_type: Seq<char>,
    name: Seq<char>,
    list: Option<Seq<char>>,
    annotations: Map<Seq<char>, Seq<char>>,
)
    requires
        before.len() == found.len(),
        methods_of(found, before) is Ok,
    ensures
        methods_of(
            found.push(seq![Some(return_type), Some(name), list]),
            before.push(annotations),
        ) == Ok::<Methods, Seq<char>>(
            methods_of(found, before)->Ok_0.insert(name, MethodModel { return_type, annotations }),
        ),
{
    assert(found.push(seq![Some(return_type), Some(name), list]).drop_last() =~= found);
    assert(before.push(annotations).drop_last() =~= before);
}

/// Of two services with one name the later counts; others are not touched.
pub proof fn law_later_service_counts(
    namespace: Seq<char>,
    found: Seq<Seq<Option<Seq<char>>>>,
    before: Seq<Result<Methods, Seq<char>>>,
    name: Seq<char>,
    body: Seq<char>,
    methods: Methods,
)
    requires
        before.len() == found.len(),
        services_of(namespace, found, before) is Ok,
    ensures
        services_of(
            namespace,
            found.push(seq![Some(name), Some(body)]),
            before.push(Ok(methods)),
        ) == Ok::<Services, Seq<char>>(
            services_of(namespace, found, before)->Ok_0.insert(
                qualified_name(namespace, name),
                methods,
            ),
        ),
{
    assert(found.push(seq![Some(name), Some(body)]).drop_last() =~= found);
    assert(before.push(Ok(methods)).drop_last() =~= before);
}

/// Each service is found under a name that begins with the namespace and a dot.
proof fn lemma_services_are_qualified(
    namespace: Seq<char>,
    found: Seq<Seq<Option<Seq<char>>>>,
    methods: Seq<Result<Methods, Seq<char>>>,
    key: Seq<char>,
)
    requires
        services_of(namespace, found, methods) is Ok,
        services_of(namespace, found, methods)->Ok_0.contains_key(key),
    ensures
        exists|name: Seq<char>| key == #[trigger] qualified_name(namespace, name),
    decreases found.len(),
{
    if found.len() > 0 {
        let name = found.last()[0]->Some_0;
        if key == qualified_name(namespace, name) {
        } else {
            lemma_services_are_qualified(namespace, found.drop_last(), methods.drop_last(), key);
        }
    }
}

/// Every service of a description is found under the name of the namespace that
/// the description declares, a dot, and a name of its own.
pub proof fn law_services_are_qualified(description: Seq<char>, key: Seq<char>)
    requires
        thrift_services(description) is Ok,
        thrift_services(description)->Ok_0.contains_key(key),
    ensures
        namespace_in(crate::comments::without_comments(description)) matches Some(namespace)
            && exists|name: Seq<char>| key == #[trigger] qualified_name(namespace, name),
{
    let content = crate::comments::without_comments(description);
    let namespace = namespace_in(content)->Some_0;
    lemma_services_are_qualified(
        namespace,
        service_matches(content),
        methods_of_each(service_matches(content)),
        key,
    );
}

/// A description is read as the one without its comments.
pub proof fn law_comments_say_nothing(description: Seq<char>)
    ensures
        thrift_services(crate::comments::without_comments(description)) == thrift_services(
            description,
        ),
{
    let content = crate::comments::without_comments(description);
    crate::comments::law_no_comment_stays(description);
    crate::comments::law_text_without_comments_stays(content);
}

/// A match without a key or without a value adds no annotation, and without matches
/// there are none.
pub proof fn law_incomplete_annotation_adds_nothing(
    found: Seq<Seq<Option<Seq<char>>>>,
    key: Option<Seq<char>>,
    value: Option<Seq<char>>,
)
    requires
        key is None || value is None,
    ensures
        annotations_of(found.push(seq![key, value])) == annotations_of(found),
        annotations_of(Seq::empty()) == Map::<Seq<char>, Seq<char>>::empty(),
{
    assert(found.push(seq![key, value]).drop_last() =~= found);
}

/// Matches that each give a return type and a name give methods: one under each name
/// and no others. The method under a name is that of the last match with this name, with
/// the return type that this match gave and the annotations that were read for it.
pub proof fn law_each_method_has_its_own(
    found: Seq<Seq<Option<Seq<char>>>>,
    annotations: Seq<Map<Seq<char>, Seq<char>>>,
)
    requires
        annotations.len() == found.len(),
        forall|i: int|
            0 <= i < found.len() ==> (#[trigger] found[i])[0] is Some && found[i][1] is Some,
    ensures
        methods_of(found, annotations) is Ok,
        forall|name: Seq<char>| #[trigger]
            methods_of(found, annotations)->Ok_0.contains_key(name) <==> exists|i: int|
                0 <= i < found.len() && (#[trigger] found[i])[1] == Some(name),
        forall|i: int|
            0 <= i < found.len() && (forall|j: int|
                i < j < found.len() ==> (#[trigger] found[j])[1] != found[i][1]) ==> ({
                let held = methods_of(found, annotations)->Ok_0[(
                #[trigger] found[i])[1]->Some_0];
                &&& held.return_type == found[i][0]->Some_0
                &&& held.annotations == annotations[i]
            }),
    decreases found.len(),
{
    if found.len() > 0 {
        let front = found.drop_last();
        let last = found.last();
        assert(last == found[found.len() - 1]);
        assert forall|i: int| 0 <= i < front.len() implies (#[trigger] front[i])[0] is Some
            && front[i][1] is Some by {
            assert(front[i] == found[i]);
        }
        law_each_method_has_its_own(front, annotations.drop_last());
        let before = methods_of(front, annotations.drop_last())->Ok_0;
        let held = methods_of(found, annotations)->Ok_0;
        assert forall|name: Seq<char>| #[trigger] held.contains_key(name) <==> exists|i: int|
            0 <= i < found.len() && (#[trigger] found[i])[1] == Some(name) by {
            if held.contains_key(name) {
                if last[1] == Some(name) {
                    assert(found[found.len() - 1][1] == Some(name));
                } else {
                    assert(before.contains_key(name));
                    let i = choose|i: int|
                        0 <= i < front.len() && (#[trigger] front[i])[1] == Some(name);
                    assert(found[i][1] == Some(name));
                }
            }
            if exists|i: int| 0 <= i < found.len() && (#[trigger] found[i])[1] == Some(name) {
                let i = choose|i: int|
                    0 <= i < found.len() && (#[trigger] found[i])[1] == Some(name);
                if i < front.len() {
                    assert(front[i][1] == Some(name));
                    assert(before.contains_key(name));
                }
            }
        }
        assert forall|i: int|
            0 <= i < found.len() && (forall|j: int|
                i < j < found.len() ==> (#[trigger] found[j])[1] != found[i][1]) implies ({
            let method = held[(#[trigger] found[i])[1]->Some_0];
            &&& method.return_type == found[i][0]->Some_0
            &&& method.annotations == annotations[i]
        }) by {
            if i < front.len() {
                assert(found[found.len() - 1][1] != found[i][1]);
                assert(front[i] == found[i]);
                assert forall|j: int| i < j < front.len() implies (#[trigger] front[j])[1]
                    != front[i][1] by {
                    assert(front[j] == found[j]);
                }
                assert(annotations.drop_last()[i] == annotations[i]);
            }
        }
    }
}

/// The first match without a return type or without a name is the error, whatever
/// follows it.
pub proof fn law_first_incomplete_method_is_the_error(
    found: Seq<Seq<Option<Seq<char>>>>,
    annotations: Seq<Map<Seq<char>, Seq<char>>>,
    at: int,
)
    requires
        annotations.len() == found.len(),
        0 <= at < found.len(),
        forall|i: int| 0 <= i < at ==> (#[trigger] found[i])[0] is Some && found[i][1] is Some,
        found[at][0] is None || found[at][1] is None,
    ensures
        methods_of(found, annotations) == Err::<Methods, Seq<char>>(
            if found[at][0] is None {
                "Return type not found"@
            } else {
                "Method name not found"@
            },
        ),
{
    let front = found.take(at);
    assert forall|i: int| 0 <= i < front.len() implies (#[trigger] front[i])[0] is Some
        && front[i][1] is Some by {
        assert(front[i] == found[i]);
    }
    law_each_method_has_its_own(front, annotations.take(at));
    assert(found.take(at + 1).drop_last() =~= front);
    assert(annotations.take(at + 1).drop_last() =~= annotations.take(at));
    assert(found.take(at + 1).last() == found[at]);
    lemma_methods_error(found, annotations, at + 1);
}

/// In a service body, the method under a name is that of the last match of the method
/// pattern with this name. It has the return type that this match gave, and just the
/// annotations in the list that this match gave: none where it gave no list.
pub proof fn law_methods_of_a_body(body: Seq<char>)
    requires
        forall|i: int|
            0 <= i < method_matches(body).len() ==> (#[trigger] method_matches(body)[i])[0] is Some
                && method_matches(body)[i][1] is Some,
    ensures
        method_matches(body) == crate::pattern::regex_captures_iter(
            METHOD_PATTERN@,
            seq!["return_type"@, "method_name"@, "annotations"@],
            body,
        ),
        methods_in(body) is Ok,
        forall|name: Seq<char>| #[trigger]
            methods_in(body)->Ok_0.contains_key(name) <==> exists|i: int|
                0 <= i < method_matches(body).len() && (#[trigger] method_matches(body)[i])[1]
                    == Some(name),
        forall|i: int|
            0 <= i < method_matches(body).len() && (forall|j: int|
                i < j < method_matches(body).len() ==> (#[trigger] method_matches(body)[j])[1]
                    != method_matches(body)[i][1]) ==> ({
                let found = #[trigger] method_matches(body)[i];
                let held = methods_in(body)->Ok_0[found[1]->Some_0];
                &&& held.return_type == found[0]->Some_0
                &&& match found[2] {
                    Some(list) => held.annotations == annotations_in(list),
                    None => held.annotations == Map::<Seq<char>, Seq<char>>::empty(),
                }
            }),
{
    law_each_method_has_its_own(
        method_matches(body),
        annotations_of_each(method_matches(body)),
    );
}

/// Two texts behind one namespace and a dot are one only if they are equal.
proof fn lemma_qualified_names_differ(namespace: Seq<char>, one: Seq<char>, other: Seq<char>)
    requires
        qualified_name(namespace, one) == qualified_name(namespace, other),
    ensures
        one == other,
{
    reveal_strlit(".");
    let skipped = namespace.len() as int + 1;
    assert(qualified_name(namespace, one).skip(skipped) =~= one);
    assert(qualified_name(namespace, other).skip(skipped) =~= other);
}

/// The name of a service is all of its namespace, a dot, and all of its own name: no two
/// services of a namespace share it.
pub proof fn law_qualified_name_has_both(namespace: Seq<char>, service: Seq<char>)
    ensures
        qualified_name(namespace, service) == namespace + seq!['.'] + service,
        qualified_name(namespace, service).len() == namespace.len() + 1 + service.len(),
        forall|other: Seq<char>| #[trigger]
            qualified_name(namespace, other) == qualified_name(namespace, service) ==> other
                == service,
{
    reveal_strlit(".");
    assert("."@ =~= seq!['.']);
    assert forall|other: Seq<char>| #[trigger]
        qualified_name(namespace, other) == qualified_name(namespace, service) implies other
        == service by {
        lemma_qualified_names_differ(namespace, other, service);
    }
}

/// Matches that each give a name and a body that was read give services: one under
/// each name behind the namespace and a dot, and no others. The service under a name
/// has the methods of the last match with this name.
pub proof fn law_each_service_has_its_own(
    namespace: Seq<char>,
    found: Seq<Seq<Option<Seq<char>>>>,
    methods: Seq<Result<Methods, Seq<char>>>,
)
    requires
        methods.len() == found.len(),
        forall|i: int|
            0 <= i < found.len() ==> (#[trigger] found[i])[0] is Some && found[i][1] is Some
                && methods[i] is Ok,
    ensures
        services_of(namespace, found, methods) is Ok,
        forall|key: Seq<char>| #[trigger]
            services_of(namespace, found, methods)->Ok_0.contains_key(key) <==> exists|i: int|
                0 <= i < found.len() && key == namespace + seq!['.'] + (
                #[trigger] found[i])[0]->Some_0,
        forall|i: int|
            0 <= i < found.len() && (forall|j: int|
                i < j < found.len() ==> (#[trigger] found[j])[0] != found[i][0])
                ==> services_of(namespace, found, methods)->Ok_0[namespace + seq!['.'] + (
            #[trigger] found[i])[0]->Some_0] == methods[i]->Ok_0,
    decreases found.len(),
{
    if found.len() > 0 {
        let front = found.drop_last();
        let last = found.last();
        let name = last[0]->Some_0;
        assert(last == found[found.len() - 1]);
        assert(methods.last() == methods[methods.len() - 1]);
        assert forall|i: int| 0 <= i < front.len() implies (#[trigger] front[i])[0] is Some
            && front[i][1] is Some && methods.drop_last()[i] is Ok by {
            assert(front[i] == found[i]);
        }
        law_each_service_has_its_own(namespace, front, methods.drop_last());
        law_qualified_name_has_both(namespace, name);
        let before = services_of(namespace, front, methods.drop_last())->Ok_0;
        let held = services_of(namespace, found, methods)->Ok_0;
        let added = namespace + seq!['.'] + name;
        assert(held == before.insert(added, methods.last()->Ok_0));
        assert forall|key: Seq<char>| #[trigger] held.contains_key(key) <==> exists|i: int|
            0 <= i < found.len() && key == namespace + seq!['.'] + (
            #[trigger] found[i])[0]->Some_0 by {
            if held.contains_key(key) {
                if key == added {
                    assert(key == namespace + seq!['.'] + found[found.len() - 1][0]->Some_0);
                } else {
                    assert(before.contains_key(key));
                    let i = choose|i: int|
                        0 <= i < front.len() && key == namespace + seq!['.'] + (
                        #[trigger] front[i])[0]->Some_0;
                    assert(found[i] == front[i]);
                }
            }
            if exists|i: int|
                0 <= i < found.len() && key == namespace + seq!['.'] + (
                #[trigger] found[i])[0]->Some_0 {
                let i = choose|i: int|
                    0 <= i < found.len() && key == namespace + seq!['.'] + (
                    #[trigger] found[i])[0]->Some_0;
                if i < front.len() {
                    assert(front[i] == found[i]);
                    assert(before.contains_key(key));
                }
            }
        }
        assert forall|i: int|
            0 <= i < found.len() && (forall|j: int|
                i < j < found.len() ==> (#[trigger] found[j])[0]
                    != found[i][0]) implies held[namespace + seq!['.'] + (
        #[trigger] found[i])[0]->Some_0] == methods[i]->Ok_0 by {
            if i < front.len() {
                assert(found[found.len() - 1][0] != found[i][0]);
                assert(front[i] == found[i]);
                assert forall|j: int| i < j < front.len() implies (#[trigger] front[j])[0]
                    != front[i][0] by {
                    assert(front[j] == found[j]);
                }
                let own = found[i][0]->Some_0;
                law_qualified_name_has_both(namespace, own);
                if namespace + seq!['.'] + own == added {
                    lemma_qualified_names_differ(namespace, own, name);
                    assert(found[i][0] == last[0]);
                }
                assert(methods.drop_last()[i] == methods[i]);
            }
        }
    }
}

/// The first match without a name, without a body, or whose body was not read is the
/// error, whatever follows it.
pub proof fn law_first_incomplete_service_is_the_error(
    namespace: Seq<char>,
    found: Seq<Seq<Option<Seq<char>>>>,
    methods: Seq<Result<Methods, Seq<char>>>,
    at: int,
)
    requires
        methods.len() == found.len(),
        0 <= at < found.len(),
        forall|i: int|
            0 <= i < at ==> (#[trigger] found[i])[0] is Some && found[i][1] is Some
                && methods[i] is Ok,
        found[at][0] is None || found[at][1] is None || methods[at] is Err,
    ensures
        services_of(namespace, found, methods) == Err::<Services, Seq<char>>(
            if found[at][0] is None {
                "Service name not found"@
            } else if found[at][1] is None {
                "Service body not found"@
            } else {
                methods[at]->Err_0
            },
        ),
{
    let front = found.take(at);
    assert forall|i: int| 0 <= i < front.len() implies (#[trigger] front[i])[0] is Some
        && front[i][1] is Some && methods.take(at)[i] is Ok by {
        assert(front[i] == found[i]);
    }
    law_each_service_has_its_own(namespace, front, methods.take(at));
    assert(found.take(at + 1).drop_last() =~= front);
    assert(methods.take(at + 1).drop_last() =~= methods.take(at));
    assert(found.take(at + 1).last() == found[at]);
    assert(methods.take(at + 1).last() == methods[at]);
    lemma_services_error(namespace, found, methods, at + 1);
}

/// A description in which no namespace is found, comments left aside, is not accepted.
pub proof fn law_namespace_is_needed(description: Seq<char>)
    requires
        ({
            let content = crate::comments::without_comments(description);
            let found = crate::pattern::regex_captures(
                NAMESPACE_PATTERN@,
                seq!["namespace"@],
                content,
            );
            found is None || found->Some_0[0] is None
        }),
    ensures
        thrift_services(description) == Err::<Services, Seq<char>>("Namespace not found"@),
{
}

/// The services of a description are those of the matches of the service pattern in it,
/// comments left aside: each stands under the namespace that is found, a dot and the name
/// that its match gave, and has the methods of the body that its match gave, all of them.
/// Of two with one name the later counts.
pub proof fn law_services_of_a_description(description: Seq<char>, namespace: Seq<char>)
    requires
        ({
            let content = crate::comments::without_comments(description);
            let found = service_matches(content);
            &&& crate::pattern::regex_captures(
                NAMESPACE_PATTERN@,
                seq!["namespace"@],
                content,
            ) matches Some(groups) && groups[0] == Some(namespace)
            &&& forall|i: int|
                0 <= i < found.len() ==> (#[trigger] found[i])[0] is Some && found[i][1] is Some
                    && methods_in(found[i][1]->Some_0) is Ok
        }),
    ensures
        ({
            let content = crate::comments::without_comments(description);
            let found = service_matches(content);
            &&& found == crate::pattern::regex_captures_iter(
                SERVICE_PATTERN@,
                seq!["service_name"@, "service_body"@],
                content,
            )
            &&& thrift_services(description) is Ok
            &&& forall|key: Seq<char>| #[trigger]
                thrift_services(description)->Ok_0.contains_key(key) <==> exists|i: int|
                    0 <= i < found.len() && key == namespace + seq!['.'] + (
                    #[trigger] found[i])[0]->Some_0
            &&& forall|i: int|
                0 <= i < found.len() && (forall|j: int|
                    i < j < found.len() ==> (#[trigger] found[j])[0] != found[i][0])
                    ==> thrift_services(description)->Ok_0[namespace + seq!['.'] + (
                #[trigger] found[i])[0]->Some_0] == methods_in(found[i][1]->Some_0)->Ok_0
        }),
{
    let content = crate::comments::without_comments(description);
    let found = service_matches(content);
    let methods = methods_of_each(found);
    assert forall|i: int| 0 <= i < found.len() implies (#[trigger] found[i])[0] is Some
        && found[i][1] is Some && methods[i] is Ok by {
        assert(methods[i] == methods_in(found[i][1]->Some_0));
    }
    law_each_service_has_its_own(namespace, found, methods);
    let held = thrift_services(description)->Ok_0;
    assert forall|i: int|
        0 <= i < found.len() && (forall|j: int|
            i < j < found.len() ==> (#[trigger] found[j])[0]
                != found[i][0]) implies held[namespace + seq!['.'] + (
    #[trigger] found[i])[0]->Some_0] == methods_in(found[i][1]->Some_0)->Ok_0 by {
        assert(methods[i] == methods_in(found[i][1]->Some_0));
    }
}

/// The models of methods and services have all of them.
pub proof fn law_service_models_keep_everything(method: MethodConfiguration, service: Service)
    ensures
        method@.return_type == method.return_type@,
        method@.annotations == method.annotations@,
        service@ == service.methods@,
{
}

/// The models of what was read have all of it: of each dictionary of annotations, and
/// of each outcome of reading a body, in order.
pub proof fn law_outcomes_keep_everything(
    annotations: Seq<StringMap<String>>,
    methods: Seq<Result<StringMap<MethodConfiguration>, String>>,
)
    ensures
        annotation_maps(annotations).len() == annotations.len(),
        forall|i: int|
            0 <= i < annotations.len() ==> #[trigger] annotation_maps(annotations)[i]
                == annotations[i]@,
        methods_outcomes(methods).len() == methods.len(),
        forall|i: int|
            0 <= i < methods.len() ==> (#[trigger] methods_outcomes(methods)[i]) == match methods[i] {
                Ok(held) => Ok::<Methods, Seq<char>>(held@),
                Err(error) => Err::<Methods, Seq<char>>(error@),
            },
{
}

} // verus!
